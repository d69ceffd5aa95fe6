//! Key/value settings stored as JSON text.

use vstd::prelude::*;

use crate::db::{Param, col_text, execute, query_opt, text};
use crate::json::{json_parse, json_string, json_text};
use crate::Result;

verus! {

/// The value stored under `key`: its JSON parse, or the raw text as a JSON
/// string when it is not valid JSON; `None` when the key is unset.
pub fn get(conn: &rusqlite::Connection, key: &str) -> (r: Result<Option<serde_json::Value>>)
    ensures
        r matches Err(e) ==> e is Sqlite,
{
    let row = query_opt(conn, "SELECT value FROM settings WHERE key = ?1", &crate::db::texts_write(&[key]))?;
    match row {
        Some(r) => {
            let s = col_text(&r, 0)?;
            match json_parse(s.as_str()) {
                Some(v) => Ok(Some(v)),
                None => Ok(Some(json_string(s))),
            }
        },
        None => Ok(None),
    }
}

/// Store `value` under `key`, replacing any previous value.
pub fn set(conn: &rusqlite::Connection, key: &str, value: &serde_json::Value) -> (r: Result<()>)
    ensures
        r matches Err(e) ==> e is Sqlite,
{
    let stored = json_text(value);
    execute(
        conn,
        "INSERT INTO settings (key, value) VALUES (?1, ?2)
         ON CONFLICT(key) DO UPDATE SET value = excluded.value",
        &crate::db::texts_write(&[key, stored.as_str()]),
    )?;
    Ok(())
}

} // verus!
