use journal_store::bridge::{plan_request, response_for, row_to_sql_row, ExecMode, RawRow, SqlError, SqlRequest};
use journal_store::codec::{DynValue, RawCell};

fn request(sql: &str, params: Vec<DynValue>, method: &str) -> SqlRequest {
    SqlRequest { sql: sql.to_string(), params, method: method.to_string() }
}

fn cols(names: &[&str]) -> Vec<String> {
    names.iter().map(|s| s.to_string()).collect()
}

#[test]
fn test_execute_single_sql_run_insert() {
    let create = request("CREATE TABLE users (id INTEGER PRIMARY KEY, name TEXT)", vec![], "run");
    let plan = plan_request(&create).ok().expect("Failed to create table");
    assert_eq!(plan.mode, ExecMode::Execute);
    let insert = request(
        "INSERT INTO users (name) VALUES (?)",
        vec![DynValue::Text("Alice".to_string())],
        "run",
    );
    let plan = plan_request(&insert).ok().expect("Failed to insert");
    assert_eq!(plan.mode, ExecMode::Execute);
    assert_eq!(plan.sql, "INSERT INTO users (name) VALUES (?)");
    let response = response_for(plan.mode, vec![]);
    assert_eq!(response.rows.len(), 0, "run method should return empty rows");
}

#[test]
fn test_execute_single_sql_all_select() {
    let select = request("SELECT id, name, price FROM products ORDER BY id", vec![], "all");
    let plan = plan_request(&select).ok().expect("Failed to select");
    assert_eq!(plan.mode, ExecMode::FetchRows);
    let raw = vec![
        RawRow {
            columns: cols(&["id", "name", "price"]),
            cells: vec![
                RawCell::Integer(Some(1)),
                RawCell::Text(Some("Widget".to_string())),
                RawCell::Real(Some(9.99f64.to_bits())),
            ],
        },
        RawRow {
            columns: cols(&["id", "name", "price"]),
            cells: vec![
                RawCell::Integer(Some(2)),
                RawCell::Text(Some("Gadget".to_string())),
                RawCell::Real(Some(19.99f64.to_bits())),
            ],
        },
    ];
    let response = response_for(plan.mode, raw);
    assert_eq!(response.rows.len(), 2, "Should have 2 rows");
    let row1 = &response.rows[0];
    assert_eq!(row1.columns, vec!["id", "name", "price"]);
    assert_eq!(row1.rows[1], DynValue::Text("Widget".to_string()));
    assert_eq!(row1.rows[2], DynValue::Float(9.99f64.to_bits()));
    let row2 = &response.rows[1];
    assert_eq!(row2.rows[1], DynValue::Text("Gadget".to_string()));
    assert_eq!(row2.rows[2], DynValue::Float(19.99f64.to_bits()));
}

#[test]
fn test_execute_single_sql_get_single_row() {
    let select = request("SELECT id, title, active FROM items WHERE id = ?", vec![DynValue::Int(1)], "get");
    let plan = plan_request(&select).ok().expect("Failed to select");
    assert_eq!(plan.mode, ExecMode::FetchRows);
    assert_eq!(plan.params.len(), 1);
    let raw = vec![RawRow {
        columns: cols(&["id", "title", "active"]),
        cells: vec![
            RawCell::Integer(Some(1)),
            RawCell::Text(Some("Important Task".to_string())),
            RawCell::Integer(Some(1)),
        ],
    }];
    let response = response_for(plan.mode, raw);
    assert_eq!(response.rows.len(), 1, "Should have 1 row");
    let row = &response.rows[0];
    assert_eq!(row.rows[1], DynValue::Text("Important Task".to_string()));
    assert_eq!(row.rows[2], DynValue::Int(1));
}

#[test]
fn test_execute_single_sql_with_null_parameter() {
    let insert = request("INSERT INTO notes (content) VALUES (?)", vec![DynValue::Null], "run");
    assert!(plan_request(&insert).is_ok(), "Failed to insert with NULL");
    let select = request("SELECT id, content FROM notes WHERE id = 1", vec![], "get");
    let plan = plan_request(&select).ok().unwrap();
    let raw = vec![RawRow { columns: cols(&["id", "content"]), cells: vec![RawCell::Integer(Some(1)), RawCell::Text(None)] }];
    let response = response_for(plan.mode, raw);
    assert_eq!(response.rows.len(), 1);
    assert_eq!(response.rows[0].rows[1], DynValue::Null, "Content should be NULL");
}

#[test]
fn get_user_by_id_scenario() {
    let raw = vec![RawRow {
        columns: cols(&["id", "name"]),
        cells: vec![RawCell::Integer(Some(1)), RawCell::Text(Some("Alice".to_string()))],
    }];
    let response = response_for(ExecMode::FetchRows, raw);
    assert_eq!(response.rows.len(), 1);
    assert_eq!(response.rows[0].columns, vec!["id", "name"]);
    assert_eq!(response.rows[0].rows, vec![DynValue::Int(1), DynValue::Text("Alice".to_string())]);
}

#[test]
fn run_discards_rows() {
    let raw = vec![RawRow { columns: cols(&["n"]), cells: vec![RawCell::Integer(Some(3))] }];
    assert_eq!(response_for(ExecMode::Execute, raw).rows.len(), 0);
}

#[test]
fn rows_keep_order_and_shape() {
    let raw: Vec<RawRow> = (0..5)
        .map(|i| RawRow { columns: cols(&["b", "a"]), cells: vec![RawCell::Integer(Some(i)), RawCell::Null] })
        .collect();
    let response = response_for(ExecMode::FetchRows, raw);
    assert_eq!(response.rows.len(), 5);
    for (i, row) in response.rows.iter().enumerate() {
        assert_eq!(row.columns, vec!["b", "a"]);
        assert_eq!(row.columns.len(), row.rows.len());
        assert_eq!(row.rows[0], DynValue::Int(i as i64));
        assert_eq!(row.rows[1], DynValue::Null);
    }
}

#[test]
fn decode_row_directly() {
    let row = row_to_sql_row(RawRow { columns: cols(&["x"]), cells: vec![RawCell::Blob(Some(vec![0x80]))] });
    assert_eq!(row.columns, vec!["x"]);
    assert_eq!(row.rows, vec![DynValue::Null]);
}

#[test]
fn invalid_parameter_names_first_position() {
    let req = request(
        "INSERT INTO t VALUES (?, ?, ?)",
        vec![DynValue::Int(1), DynValue::Float(f64::NAN.to_bits()), DynValue::Float(f64::INFINITY.to_bits())],
        "run",
    );
    match plan_request(&req) {
        Err(e) => assert_eq!(e, SqlError::InvalidParameter(1)),
        Ok(_) => panic!("expected an invalid parameter"),
    }
}

#[test]
fn method_other_than_run_fetches() {
    assert_eq!(plan_request(&request("SELECT 1", vec![], "values")).ok().unwrap().mode, ExecMode::FetchRows);
    assert_eq!(plan_request(&request("SELECT 1", vec![], "RUN")).ok().unwrap().mode, ExecMode::FetchRows);
}
