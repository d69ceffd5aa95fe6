//! Content pillars: the themes reels are planned against.

use vstd::prelude::*;

use crate::db::{Param, Row, SqlValue, bool_cell, col_bool, col_int, col_opt_text, col_text, execute, flag, int_cell, opt_text_cell, query, query_one, text, text_cell};
use crate::ids;
use crate::text::{is_blank, trim, trimmed};
use crate::{CoreError, Result, invalid, not_found};

verus! {

/// A content pillar.
#[derive(Clone, Debug)]
pub struct Pillar {
    pub id: String,
    pub name: String,
    pub color: String,
    pub description: Option<String>,
    pub target_per_week: i64,
    pub sort_order: i64,
    pub archived: bool,
}

/// Create a pillar at the end of the sort order. The name is required and
/// stored trimmed; names are unique (the database refuses a duplicate).
pub fn create(conn: &rusqlite::Connection, name: &str, color: &str, target_per_week: i64) -> (r:
    Result<Pillar>)
    ensures
        trim(name@).len() == 0 ==> (r matches Err(CoreError::Invalid(m)) && m@
            == "pillar name is required"@),
        r matches Err(CoreError::Invalid(_)) ==> trim(name@).len() == 0,
        r matches Ok(p) ==> {
            &&& p.name@ == trim(name@)
            &&& p.color@ == color@
            &&& p.description is None
            &&& p.target_per_week == target_per_week
            &&& !p.archived
        },
{
    if is_blank(name) {
        return Err(invalid("pillar name is required"));
    }
    let row = query_one(conn, "SELECT COALESCE(MAX(sort_order), 0) + 1 FROM pillars", &vec![])?;
    let next_order = col_int(&row, 0)?;
    let pillar = Pillar {
        id: ids::new_id(),
        name: trimmed(name),
        color: String::from_str(color),
        description: None,
        target_per_week,
        sort_order: next_order,
        archived: false,
    };
    execute(
        conn,
        "INSERT INTO pillars (id, name, color, target_per_week, sort_order)
         VALUES (?1, ?2, ?3, ?4, ?5)",
        &vec![
            text(pillar.id.as_str()),
            text(pillar.name.as_str()),
            text(pillar.color.as_str()),
            Param::Int(pillar.target_per_week),
            Param::Int(pillar.sort_order),
        ],
    )?;
    Ok(pillar)
}

/// The parameters of a pillar's update: the name trimmed, colour, weekly
/// target, id.
pub fn pillar_update_write(id: &str, name: &str, color: &str, target_per_week: i64) -> (p: Vec<Param>)
    ensures
        crate::db::params_view(p@) == seq![
            crate::db::ParamView::Text(trim(name@)),
            crate::db::ParamView::Text(color@),
            crate::db::ParamView::Int(target_per_week),
            crate::db::ParamView::Text(id@),
        ],
{
    let p = vec![Param::Text(trimmed(name)), text(color), Param::Int(target_per_week), text(id)];
    assert(crate::db::params_view(p@) =~= seq![
        crate::db::ParamView::Text(trim(name@)),
        crate::db::ParamView::Text(color@),
        crate::db::ParamView::Int(target_per_week),
        crate::db::ParamView::Text(id@),
    ]);
    p
}

/// Rename / recolor / retarget a pillar (name stored trimmed).
pub fn update(conn: &rusqlite::Connection, id: &str, name: &str, color: &str, target_per_week: i64) -> (r:
    Result<()>)
    ensures
        !(r matches Err(CoreError::Invalid(_))),
{
    let changed = execute(
        conn,
        "UPDATE pillars SET name = ?1, color = ?2, target_per_week = ?3 WHERE id = ?4",
        &pillar_update_write(id, name, color, target_per_week),
    )?;
    if changed == 0 {
        return Err(not_found("pillar ", id));
    }
    Ok(())
}

/// Archive or restore a pillar.
pub fn set_archived(conn: &rusqlite::Connection, id: &str, archived: bool) -> (r: Result<()>)
    ensures
        !(r matches Err(CoreError::Invalid(_))),
{
    let changed = execute(
        conn,
        "UPDATE pillars SET archived = ?1 WHERE id = ?2",
        &crate::db::flag_write(archived, id),
    )?;
    if changed == 0 {
        return Err(not_found("pillar ", id));
    }
    Ok(())
}

/// A row decodes as a pillar: every column has the expected type.
pub open spec fn pillar_row_ok(row: Seq<SqlValue>) -> bool {
    &&& text_cell(row, 0) is Some
    &&& text_cell(row, 1) is Some
    &&& text_cell(row, 2) is Some
    &&& opt_text_cell(row, 3) is Some
    &&& int_cell(row, 4) is Some
    &&& int_cell(row, 5) is Some
    &&& bool_cell(row, 6) is Some
}

/// `x` is a pillar decoded from `row`, column by column.
pub open spec fn pillar_of_row(x: Pillar, row: Seq<SqlValue>) -> bool {
    &&& text_cell(row, 0) == Some(x.id@)
    &&& text_cell(row, 1) == Some(x.name@)
    &&& text_cell(row, 2) == Some(x.color@)
    &&& opt_text_cell(row, 3) == Some(crate::text::opt_view(x.description))
    &&& int_cell(row, 4) == Some(x.target_per_week)
    &&& int_cell(row, 5) == Some(x.sort_order)
    &&& bool_cell(row, 6) == Some(x.archived)
}

/// `x` was decoded from some row.
pub open spec fn pillar_decoded(x: Pillar) -> bool {
    exists|row: Seq<SqlValue>| pillar_of_row(x, row)
}

/// Decode a pillar from a result row.
pub fn row_to_pillar(r: &Row) -> (p: Result<Pillar>)
    ensures
        p matches Err(e) ==> e is Sqlite,
        p is Ok <==> pillar_row_ok(r@),
        p matches Ok(x) ==> pillar_of_row(x, r@),
{
    Ok(Pillar {
        id: col_text(r, 0)?,
        name: col_text(r, 1)?,
        color: col_text(r, 2)?,
        description: col_opt_text(r, 3)?,
        target_per_week: col_int(r, 4)?,
        sort_order: col_int(r, 5)?,
        archived: col_bool(r, 6)?,
    })
}

/// Pillars in sort order; archived ones only when asked for.
pub fn list(conn: &rusqlite::Connection, include_archived: bool) -> (r: Result<Vec<Pillar>>)
    ensures
        r matches Ok(v) ==> forall|k: int| 0 <= k < v.len() ==> pillar_decoded(#[trigger] v@[k]),
        r matches Err(e) ==> e is Sqlite,
{
    let rows = query(
        conn,
        "SELECT id, name, color, description, target_per_week, sort_order, archived
         FROM pillars WHERE archived = 0 OR ?1 ORDER BY sort_order",
        &vec![flag(include_archived)],
    )?;
    let mut out: Vec<Pillar> = Vec::new();
    let mut i: usize = 0;
    while i < rows.len()
        invariant
            i <= rows.len(),
            forall|k: int| 0 <= k < out.len() ==> pillar_decoded(#[trigger] out@[k]),
        decreases rows.len() - i,
    {
        let x = row_to_pillar(&rows[i])?;
        assert(pillar_of_row(x, rows@[i as int]@));
        out.push(x);
        i += 1;
    }
    Ok(out)
}

} // verus!
