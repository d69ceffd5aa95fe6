//! The activity log: an append-only record of what happened to which entity.

use vstd::prelude::*;

use crate::db::{Param, Row, SqlValue, col_int, col_opt_text, col_text, execute, int_cell, opt_text_cell, query, text, text_cell};
use crate::ids;
use crate::json::{json_parse, json_text};
use crate::Result;

verus! {

/// One logged action.
pub struct ActivityEntry {
    pub id: i64,
    pub at: String,
    pub entity: String,
    pub entity_id: String,
    pub action: String,
    pub detail: Option<serde_json::Value>,
}

/// Append an entry, stamped with the current time.
pub fn log(
    conn: &rusqlite::Connection,
    entity: &str,
    entity_id: &str,
    action: &str,
    detail: Option<&serde_json::Value>,
) -> (r: Result<()>)
    ensures
        r matches Err(e) ==> e is Sqlite,
{
    let detail_text: Param = match detail {
        Some(d) => Param::Text(json_text(d)),
        None => Param::Null,
    };
    let params = vec![
        Param::Text(ids::now_iso()),
        text(entity),
        text(entity_id),
        text(action),
        detail_text,
    ];
    execute(
        conn,
        "INSERT INTO activity_log (at, entity, entity_id, action, detail)
         VALUES (?1, ?2, ?3, ?4, ?5)",
        &params,
    )?;
    Ok(())
}

/// A row decodes as an activity entry: every column has the expected type.
pub open spec fn entry_row_ok(row: Seq<SqlValue>) -> bool {
    &&& int_cell(row, 0) is Some
    &&& text_cell(row, 1) is Some
    &&& text_cell(row, 2) is Some
    &&& text_cell(row, 3) is Some
    &&& text_cell(row, 4) is Some
    &&& opt_text_cell(row, 5) is Some
}

/// `x` is an activity entry decoded from `row`, column by column.
pub open spec fn entry_of_row(x: ActivityEntry, row: Seq<SqlValue>) -> bool {
    &&& int_cell(row, 0) == Some(x.id)
    &&& text_cell(row, 1) == Some(x.at@)
    &&& text_cell(row, 2) == Some(x.entity@)
    &&& text_cell(row, 3) == Some(x.entity_id@)
    &&& text_cell(row, 4) == Some(x.action@)
}

/// `x` was decoded from some row.
pub open spec fn entry_decoded(x: ActivityEntry) -> bool {
    exists|row: Seq<SqlValue>| entry_of_row(x, row)
}

/// Decode an activity entry from a result row.
pub fn row_to_entry(r: &Row) -> (e: Result<ActivityEntry>)
    ensures
        e matches Err(e) ==> e is Sqlite,
        e is Ok <==> entry_row_ok(r@),
        e matches Ok(x) ==> entry_of_row(x, r@),
{
    let detail = match col_opt_text(r, 5)? {
        Some(d) => json_parse(d.as_str()),
        None => None,
    };
    Ok(ActivityEntry {
        id: col_int(r, 0)?,
        at: col_text(r, 1)?,
        entity: col_text(r, 2)?,
        entity_id: col_text(r, 3)?,
        action: col_text(r, 4)?,
        detail,
    })
}

/// The newest `limit` entries, newest first.
pub fn recent(conn: &rusqlite::Connection, limit: i64) -> (r: Result<Vec<ActivityEntry>>)
    ensures
        r matches Ok(v) ==> forall|k: int| 0 <= k < v.len() ==> entry_decoded(#[trigger] v@[k]),
        r matches Err(e) ==> e is Sqlite,
{
    let rows = query(
        conn,
        "SELECT id, at, entity, entity_id, action, detail
         FROM activity_log ORDER BY id DESC LIMIT ?1",
        &vec![Param::Int(limit)],
    )?;
    let mut out: Vec<ActivityEntry> = Vec::new();
    let mut i: usize = 0;
    while i < rows.len()
        invariant
            i <= rows.len(),
            forall|k: int| 0 <= k < out.len() ==> entry_decoded(#[trigger] out@[k]),
        decreases rows.len() - i,
    {
        let x = row_to_entry(&rows[i])?;
        assert(entry_of_row(x, rows@[i as int]@));
        out.push(x);
        i += 1;
    }
    Ok(out)
}

} // verus!
