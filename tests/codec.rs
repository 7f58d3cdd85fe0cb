use journal_store::codec::{
    bind_value, column_type_of, decode_cell, is_finite_bits, BindParam, ColumnType, DynValue, RawCell,
};

#[test]
fn bind_each_kind() {
    assert_eq!(bind_value(&DynValue::Null), Some(BindParam::Null));
    assert_eq!(bind_value(&DynValue::Bool(true)), Some(BindParam::Bool(true)));
    assert_eq!(bind_value(&DynValue::Int(-7)), Some(BindParam::Int(-7)));
    let bits = 9.99f64.to_bits();
    assert_eq!(bind_value(&DynValue::Float(bits)), Some(BindParam::Real(bits)));
    assert_eq!(
        bind_value(&DynValue::Text("Alice".to_string())),
        Some(BindParam::Text("Alice".to_string()))
    );
    assert_eq!(
        bind_value(&DynValue::Array("[\"a\",\"b\"]".to_string())),
        Some(BindParam::Text("[\"a\",\"b\"]".to_string()))
    );
    assert_eq!(
        bind_value(&DynValue::Object("{\"k\":1}".to_string())),
        Some(BindParam::Text("{\"k\":1}".to_string()))
    );
}

#[test]
fn non_finite_float_cannot_be_bound() {
    assert_eq!(bind_value(&DynValue::Float(f64::NAN.to_bits())), None);
    assert_eq!(bind_value(&DynValue::Float(f64::INFINITY.to_bits())), None);
    assert!(!is_finite_bits(f64::NEG_INFINITY.to_bits()));
    assert!(is_finite_bits(0.0f64.to_bits()));
    assert!(is_finite_bits(f64::MAX.to_bits()));
}

#[test]
fn column_type_names() {
    assert_eq!(column_type_of("INTEGER"), ColumnType::Integer);
    assert_eq!(column_type_of("REAL"), ColumnType::Real);
    assert_eq!(column_type_of("TEXT"), ColumnType::Text);
    assert_eq!(column_type_of("BLOB"), ColumnType::Blob);
    assert_eq!(column_type_of("NULL"), ColumnType::Null);
    assert_eq!(column_type_of("DATETIME"), ColumnType::Other);
    assert_eq!(column_type_of("integer"), ColumnType::Other);
}

#[test]
fn decode_each_cell() {
    assert_eq!(decode_cell(RawCell::Integer(Some(1))), DynValue::Int(1));
    assert_eq!(decode_cell(RawCell::Integer(None)), DynValue::Null);
    let bits = 19.99f64.to_bits();
    assert_eq!(decode_cell(RawCell::Real(Some(bits))), DynValue::Float(bits));
    assert_eq!(decode_cell(RawCell::Real(Some(f64::NAN.to_bits()))), DynValue::Null);
    assert_eq!(decode_cell(RawCell::Real(None)), DynValue::Null);
    assert_eq!(decode_cell(RawCell::Text(Some("Widget".to_string()))), DynValue::Text("Widget".to_string()));
    assert_eq!(decode_cell(RawCell::Text(None)), DynValue::Null);
    assert_eq!(decode_cell(RawCell::Null), DynValue::Null);
    assert_eq!(decode_cell(RawCell::Unreadable), DynValue::Null);
}

#[test]
fn decode_blob_as_text_or_null() {
    let utf8 = "héllo".as_bytes().to_vec();
    assert_eq!(decode_cell(RawCell::Blob(Some(utf8))), DynValue::Text("héllo".to_string()));
    assert_eq!(decode_cell(RawCell::Blob(Some(vec![0xff, 0xfe, 0x00]))), DynValue::Null);
    assert_eq!(decode_cell(RawCell::Blob(None)), DynValue::Null);
}

#[test]
fn bind_then_decode_round_trips() {
    let values = vec![
        (DynValue::Int(42), RawCell::Integer(Some(42))),
        (DynValue::Float(9.99f64.to_bits()), RawCell::Real(Some(9.99f64.to_bits()))),
        (DynValue::Text("x".to_string()), RawCell::Text(Some("x".to_string()))),
    ];
    for (v, stored) in values {
        let p = bind_value(&v).unwrap();
        let cell = match p {
            BindParam::Int(i) => RawCell::Integer(Some(i)),
            BindParam::Real(f) => RawCell::Real(Some(f)),
            BindParam::Text(s) => RawCell::Text(Some(s)),
            _ => RawCell::Unreadable,
        };
        assert_eq!(cell, stored);
        assert_eq!(decode_cell(cell), v);
    }
    let arr = DynValue::Array("[1,2]".to_string());
    match bind_value(&arr).unwrap() {
        BindParam::Text(s) => assert_eq!(decode_cell(RawCell::Text(Some(s))), DynValue::Text("[1,2]".to_string())),
        other => panic!("unexpected {:?}", other),
    }
}
