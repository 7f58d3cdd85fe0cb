//! Conversion between the dynamic values of the request boundary and the
//! native values of the SQLite engine.
use vstd::prelude::*;
use vstd::utf8::{decode_utf8, valid_utf8};

use crate::text::same_text;

verus! {

/// A loosely typed value, as it crosses the request boundary.
///
/// A floating-point number is held as the IEEE-754 bit pattern of an `f64`.
/// Arrays and objects are held as their canonical JSON text.
#[derive(Clone, Debug, PartialEq, Eq)]
pub enum DynValue {
    Null,
    Bool(bool),
    Int(i64),
    Float(u64),
    Text(String),
    Array(String),
    Object(String),
}

/// A value as it is bound to a positional parameter of a statement.
#[derive(Clone, Debug, PartialEq, Eq)]
pub enum BindParam {
    Null,
    Bool(bool),
    Int(i64),
    /// IEEE-754 bits of an `f64`.
    Real(u64),
    Text(String),
}

/// The declared type of a result column, as the engine reports it.
#[derive(Clone, Copy, Debug, PartialEq, Eq, Structural)]
pub enum ColumnType {
    Integer,
    Real,
    Text,
    Blob,
    Null,
    Other,
}

/// What was read from one cell of a result row. The read follows the
/// column's [`ColumnType`]: `Other` columns are read as text. `Unreadable`
/// stands for a read that the engine refused.
#[derive(Clone, Debug, PartialEq, Eq)]
pub enum RawCell {
    Integer(Option<i64>),
    /// IEEE-754 bits of an `f64`.
    Real(Option<u64>),
    Text(Option<String>),
    Blob(Option<Vec<u8>>),
    Null,
    Unreadable,
}

/// The column type that an engine type name stands for.
pub open spec fn column_type_spec(name: Seq<char>) -> ColumnType {
    if name == "INTEGER"@ {
        ColumnType::Integer
    } else if name == "REAL"@ {
        ColumnType::Real
    } else if name == "TEXT"@ {
        ColumnType::Text
    } else if name == "BLOB"@ {
        ColumnType::Blob
    } else if name == "NULL"@ {
        ColumnType::Null
    } else {
        ColumnType::Other
    }
}

/// Maps the type name that the engine reports for a column to its kind.
pub fn column_type_of(name: &str) -> (r: ColumnType)
    ensures
        r == column_type_spec(name@),
{
    if same_text(name, "INTEGER") {
        ColumnType::Integer
    } else if same_text(name, "REAL") {
        ColumnType::Real
    } else if same_text(name, "TEXT") {
        ColumnType::Text
    } else if same_text(name, "BLOB") {
        ColumnType::Blob
    } else if same_text(name, "NULL") {
        ColumnType::Null
    } else {
        ColumnType::Other
    }
}

/// An `f64` bit pattern names a finite number unless its exponent bits are all set.
pub open spec fn finite_bits(b: u64) -> bool {
    (b >> 52u64) & 0x7ffu64 != 0x7ffu64
}

pub fn is_finite_bits(b: u64) -> (r: bool)
    ensures
        r == finite_bits(b),
{
    (b >> 52u64) & 0x7ffu64 != 0x7ffu64
}

/// How a dynamic value is bound; `None` where it cannot be.
pub open spec fn bind_spec(v: DynValue) -> Option<BindParam> {
    match v {
        DynValue::Null => Some(BindParam::Null),
        DynValue::Bool(b) => Some(BindParam::Bool(b)),
        DynValue::Int(i) => Some(BindParam::Int(i)),
        DynValue::Float(f) => if finite_bits(f) {
            Some(BindParam::Real(f))
        } else {
            None
        },
        DynValue::Text(s) => Some(BindParam::Text(s)),
        DynValue::Array(j) => Some(BindParam::Text(j)),
        DynValue::Object(j) => Some(BindParam::Text(j)),
    }
}

/// Binds one dynamic value: integers as 64-bit integers, finite floats as
/// reals, text as text, arrays and objects as their JSON text. A float that
/// is not finite cannot be bound.
pub fn bind_value(v: &DynValue) -> (r: Option<BindParam>)
    ensures
        r == bind_spec(*v),
{
    match v {
        DynValue::Null => Some(BindParam::Null),
        DynValue::Bool(b) => Some(BindParam::Bool(*b)),
        DynValue::Int(i) => Some(BindParam::Int(*i)),
        DynValue::Float(f) => if is_finite_bits(*f) {
            Some(BindParam::Real(*f))
        } else {
            None
        },
        DynValue::Text(s) => Some(BindParam::Text(s.clone())),
        DynValue::Array(j) => Some(BindParam::Text(j.clone())),
        DynValue::Object(j) => Some(BindParam::Text(j.clone())),
    }
}

/// Relies on `String::from_utf8`: it succeeds exactly on well-formed UTF-8
/// and then holds the decoded characters.
#[verifier::external_body]
fn utf8_text(bytes: Vec<u8>) -> (r: Option<String>)
    ensures
        r is Some <==> valid_utf8(bytes@),
        r is Some ==> r->Some_0@ == decode_utf8(bytes@),
{
    String::from_utf8(bytes).ok()
}

/// Whether `v` is what the cell `c` decodes to. Every failure gives `Null`;
/// a blob decodes to its text when it is well-formed UTF-8.
pub open spec fn decodes_to(c: RawCell, v: DynValue) -> bool {
    match c {
        RawCell::Integer(Some(i)) => v == DynValue::Int(i),
        RawCell::Real(Some(f)) => if finite_bits(f) {
            v == DynValue::Float(f)
        } else {
            v == DynValue::Null
        },
        RawCell::Text(Some(s)) => v == DynValue::Text(s),
        RawCell::Blob(Some(b)) => if valid_utf8(b@) {
            v is Text && v->Text_0@ == decode_utf8(b@)
        } else {
            v == DynValue::Null
        },
        _ => v == DynValue::Null,
    }
}

/// Decodes one cell. A failed read, a SQL `NULL`, a non-finite real and a
/// blob that is not UTF-8 all give `Null`, so that one cell never fails a row.
pub fn decode_cell(c: RawCell) -> (r: DynValue)
    ensures
        decodes_to(c, r),
{
    match c {
        RawCell::Integer(Some(i)) => DynValue::Int(i),
        RawCell::Real(Some(f)) => if is_finite_bits(f) {
            DynValue::Float(f)
        } else {
            DynValue::Null
        },
        RawCell::Text(Some(s)) => DynValue::Text(s),
        RawCell::Blob(Some(b)) => match utf8_text(b) {
            Some(s) => DynValue::Text(s),
            None => DynValue::Null,
        },
        _ => DynValue::Null,
    }
}

/// The column type under which a bound value is stored and read back:
/// `Null` fits any column but a blob, the others their own kind.
pub open spec fn column_holds(v: DynValue, ct: ColumnType) -> bool {
    match v {
        DynValue::Null => ct == ColumnType::Integer || ct == ColumnType::Real || ct == ColumnType::Text,
        DynValue::Bool(_) => false,
        DynValue::Int(_) => ct == ColumnType::Integer,
        DynValue::Float(_) => ct == ColumnType::Real,
        _ => ct == ColumnType::Text,
    }
}

/// What the engine hands back, for a column of type `ct`, of a cell that
/// holds the bound value `p`.
pub open spec fn stored_cell(p: BindParam, ct: ColumnType) -> RawCell {
    match (p, ct) {
        (BindParam::Null, ColumnType::Integer) => RawCell::Integer(None),
        (BindParam::Null, ColumnType::Real) => RawCell::Real(None),
        (BindParam::Null, ColumnType::Text) => RawCell::Text(None),
        (BindParam::Null, ColumnType::Blob) => RawCell::Blob(None),
        (BindParam::Int(i), ColumnType::Integer) => RawCell::Integer(Some(i)),
        (BindParam::Real(f), ColumnType::Real) => RawCell::Real(Some(f)),
        (BindParam::Text(s), ColumnType::Text) => RawCell::Text(Some(s)),
        _ => RawCell::Unreadable,
    }
}

/// What a value reads back as: arrays and objects as their JSON text, the
/// rest as themselves.
pub open spec fn round_trip_image(v: DynValue) -> DynValue {
    match v {
        DynValue::Array(j) => DynValue::Text(j),
        DynValue::Object(j) => DynValue::Text(j),
        _ => v,
    }
}

/// Binding a value and decoding it from a column of its own kind gives the
/// value back; arrays and objects come back as their JSON text. Booleans are
/// left out: the engine stores them as integers. A blob that is not UTF-8
/// decodes to `Null`.
pub proof fn lemma_bind_decode_round_trip(v: DynValue, ct: ColumnType)
    requires
        column_holds(v, ct),
        v is Float ==> finite_bits(v->Float_0),
    ensures
        bind_spec(v) is Some,
        decodes_to(stored_cell(bind_spec(v)->Some_0, ct), round_trip_image(v)),
        forall|bytes: Vec<u8>| !valid_utf8(#[trigger] bytes@) ==> decodes_to(RawCell::Blob(Some(bytes)), DynValue::Null),
{
}

} // verus!
