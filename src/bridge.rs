//! Turning SQL requests into bound statements, and engine rows into responses.
use vstd::prelude::*;

use crate::codec::{bind_spec, bind_value, decode_cell, decodes_to, BindParam, DynValue, RawCell};
use crate::text::same_text;

verus! {

/// One statement to execute. `method` is `"run"` for a statement run for its
/// effect, or `"all"` / `"get"` for one whose rows are wanted.
pub struct SqlRequest {
    pub sql: String,
    pub params: Vec<DynValue>,
    pub method: String,
}

pub struct BatchSqlRequest {
    pub queries: Vec<SqlRequest>,
}

/// One decoded row: column names and the values aligned with them.
pub struct SqlRow {
    pub columns: Vec<String>,
    pub rows: Vec<DynValue>,
}

pub struct SqlResponse {
    pub rows: Vec<SqlRow>,
}

pub struct BatchSqlResponse {
    pub results: Vec<SqlResponse>,
}

/// A row as the engine returned it: column names and one read cell per column.
pub struct RawRow {
    pub columns: Vec<String>,
    pub cells: Vec<RawCell>,
}

#[derive(Clone, Copy, Debug, PartialEq, Eq, Structural)]
pub enum ExecMode {
    /// Execute for effect only.
    Execute,
    /// Execute and fetch every row.
    FetchRows,
}

#[derive(Clone, Debug, PartialEq, Eq)]
pub enum SqlError {
    /// The parameter at this position cannot be bound.
    InvalidParameter(usize),
    /// The engine rejected the statement; its message.
    QueryError(String),
}

/// A statement ready to run: its text, its bound parameters, and how to run it.
pub struct QueryPlan {
    pub sql: String,
    pub params: Vec<BindParam>,
    pub mode: ExecMode,
}

pub open spec fn mode_spec(method: Seq<char>) -> ExecMode {
    if method == "run"@ {
        ExecMode::Execute
    } else {
        ExecMode::FetchRows
    }
}

/// Whether every parameter before position `k` can be bound.
pub open spec fn bindable_before(params: Seq<DynValue>, k: int) -> bool {
    forall|i: int| 0 <= i < k ==> (#[trigger] bind_spec(params[i])) is Some
}

/// Builds the plan for a request: each parameter bound in order, and the
/// request run for effect exactly when its method is `"run"`. Fails with the
/// position of the first parameter that cannot be bound.
pub fn plan_request(request: &SqlRequest) -> (r: Result<QueryPlan, SqlError>)
    ensures
        r is Ok <==> bindable_before(request.params@, request.params@.len() as int),
        r is Ok ==> ({
            let p = r->Ok_0;
            &&& p.sql == request.sql
            &&& p.mode == mode_spec(request.method@)
            &&& p.params@.len() == request.params@.len()
            &&& forall|i: int|
                0 <= i < p.params@.len() ==> Some(#[trigger] p.params@[i]) == bind_spec(
                    request.params@[i],
                )
        }),
        r is Err ==> ({
            let k = r->Err_0->InvalidParameter_0;
            &&& r->Err_0 is InvalidParameter
            &&& k < request.params@.len()
            &&& bind_spec(request.params@[k as int]) is None
            &&& bindable_before(request.params@, k as int)
        }),
{
    let mut params: Vec<BindParam> = Vec::new();
    let mut i: usize = 0;
    while i < request.params.len()
        invariant
            i <= request.params@.len(),
            params@.len() == i,
            forall|j: int| 0 <= j < i ==> Some(#[trigger] params@[j]) == bind_spec(request.params@[j]),
            bindable_before(request.params@, i as int),
        decreases request.params@.len() - i,
    {
        match bind_value(&request.params[i]) {
            Some(p) => {
                params.push(p);
                assert(forall|j: int| 0 <= j < i + 1 ==> Some(#[trigger] params@[j]) == bind_spec(request.params@[j]));
            },
            None => {
                return Err(SqlError::InvalidParameter(i));
            },
        }
        i = i + 1;
    }
    let mode = if same_text(request.method.as_str(), "run") {
        ExecMode::Execute
    } else {
        ExecMode::FetchRows
    };
    Ok(QueryPlan { sql: request.sql.clone(), params, mode })
}

/// Whether `row` is `raw` decoded: the same columns in the same order, and
/// each cell decoded in place.
pub open spec fn row_decodes(raw: RawRow, row: SqlRow) -> bool {
    &&& row.columns@ == raw.columns@
    &&& row.rows@.len() == raw.cells@.len()
    &&& forall|j: int| 0 <= j < row.rows@.len() ==> decodes_to(raw.cells@[j], #[trigger] row.rows@[j])
}

/// Decodes one engine row, keeping column and cell order.
pub fn row_to_sql_row(raw: RawRow) -> (r: SqlRow)
    ensures
        row_decodes(raw, r),
{
    let RawRow { columns, cells } = raw;
    let ghost orig = cells@;
    let mut rows: Vec<DynValue> = Vec::new();
    for c in it: cells
        invariant
            it.seq() == orig,
            rows@.len() == it.index(),
            forall|j: int| 0 <= j < it.index() ==> decodes_to(orig[j], #[trigger] rows@[j]),
    {
        rows.push(decode_cell(c));
    }
    SqlRow { columns, rows }
}

/// The response to a request run in `mode`, given the rows the engine
/// produced: none for a statement run for effect, else every row decoded,
/// in the engine's order.
pub fn response_for(mode: ExecMode, raw: Vec<RawRow>) -> (r: SqlResponse)
    ensures
        mode == ExecMode::Execute ==> r.rows@.len() == 0,
        mode == ExecMode::FetchRows ==> r.rows@.len() == raw@.len() && forall|i: int|
            0 <= i < raw@.len() ==> row_decodes(raw@[i], #[trigger] r.rows@[i]),
        forall|i: int|
            0 <= i < r.rows@.len() && raw@[i].columns@.len() == raw@[i].cells@.len() ==> (
            #[trigger] r.rows@[i]).columns@.len() == r.rows@[i].rows@.len(),
{
    let mut rows: Vec<SqlRow> = Vec::new();
    if mode == ExecMode::Execute {
        return SqlResponse { rows };
    }
    let ghost orig = raw@;
    for row in it: raw
        invariant
            it.seq() == orig,
            rows@.len() == it.index(),
            forall|i: int| 0 <= i < it.index() ==> row_decodes(orig[i], #[trigger] rows@[i]),
    {
        rows.push(row_to_sql_row(row));
    }
    SqlResponse { rows }
}

} // verus!
