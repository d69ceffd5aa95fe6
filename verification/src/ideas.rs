//! Ideas: the capture inbox. An open idea is promoted into a reel or killed.

use vstd::prelude::*;

use crate::db::{Param, Row, SqlValue, col_opt_text, col_text, execute, opt_text, opt_text_cell, query, text, text_cell};
use crate::ids;
use crate::reels;
use crate::text::{is_blank, str_eq, trim, trimmed};
use crate::{CoreError, Result, invalid, not_found};

verus! {

/// A captured idea.
#[derive(Clone, Debug)]
pub struct Idea {
    pub id: String,
    pub title: String,
    pub notes: Option<String>,
    pub pillar_id: Option<String>,
    pub status: String,
    pub reel_id: Option<String>,
    pub created_at: String,
}

/// Capture an open idea; the title is required and stored trimmed.
pub fn create(conn: &rusqlite::Connection, title: &str, pillar_id: Option<&str>) -> (r: Result<Idea>)
    ensures
        trim(title@).len() == 0 ==> (r matches Err(CoreError::Invalid(m)) && m@
            == "idea title is required"@),
        r matches Err(CoreError::Invalid(_)) ==> trim(title@).len() == 0,
        r matches Ok(i) ==> {
            &&& i.title@ == trim(title@)
            &&& i.notes is None
            &&& i.status@ == "open"@
            &&& i.reel_id is None
            &&& (i.pillar_id is None <==> pillar_id is None)
            &&& (pillar_id matches Some(p) ==> i.pillar_id->0@ == p@)
        },
{
    if is_blank(title) {
        return Err(invalid("idea title is required"));
    }
    let idea = Idea {
        id: ids::new_id(),
        title: trimmed(title),
        notes: None,
        pillar_id: match pillar_id {
            Some(p) => Some(String::from_str(p)),
            None => None,
        },
        status: String::from_str("open"),
        reel_id: None,
        created_at: ids::now_iso(),
    };
    execute(
        conn,
        "INSERT INTO ideas (id, title, pillar_id, status, created_at)
         VALUES (?1, ?2, ?3, 'open', ?4)",
        &vec![
            text(idea.id.as_str()),
            text(idea.title.as_str()),
            opt_text(pillar_id),
            text(idea.created_at.as_str()),
        ],
    )?;
    Ok(idea)
}

/// The parameters of an idea's update: the title trimmed, notes, pillar, id.
pub fn idea_update_write(id: &str, title: &str, notes: Option<&str>, pillar_id: Option<&str>) -> (p: Vec<Param>)
    ensures
        crate::db::params_view(p@) == seq![
            crate::db::ParamView::Text(trim(title@)),
            crate::db::opt_text_view(crate::text::opt_view_str(notes)),
            crate::db::opt_text_view(crate::text::opt_view_str(pillar_id)),
            crate::db::ParamView::Text(id@),
        ],
{
    let p = vec![Param::Text(trimmed(title)), opt_text(notes), opt_text(pillar_id), text(id)];
    assert(crate::db::params_view(p@) =~= seq![
        crate::db::ParamView::Text(trim(title@)),
        crate::db::opt_text_view(crate::text::opt_view_str(notes)),
        crate::db::opt_text_view(crate::text::opt_view_str(pillar_id)),
        crate::db::ParamView::Text(id@),
    ]);
    p
}

/// Replace an idea's title (stored trimmed), notes and pillar.
pub fn update(
    conn: &rusqlite::Connection,
    id: &str,
    title: &str,
    notes: Option<&str>,
    pillar_id: Option<&str>,
) -> (r: Result<()>)
    ensures
        !(r matches Err(CoreError::Invalid(_))),
{
    let changed = execute(
        conn,
        "UPDATE ideas SET title = ?1, notes = ?2, pillar_id = ?3 WHERE id = ?4",
        &idea_update_write(id, title, notes, pillar_id),
    )?;
    if changed == 0 {
        return Err(not_found("idea ", id));
    }
    Ok(())
}

/// Kill an open idea; anything else (unknown, promoted, killed) is not found.
pub fn kill(conn: &rusqlite::Connection, id: &str) -> (r: Result<()>)
    ensures
        !(r matches Err(CoreError::Invalid(_))),
{
    let changed = execute(
        conn,
        "UPDATE ideas SET status = 'killed' WHERE id = ?1 AND status = 'open'",
        &crate::db::texts_write(&[id]),
    )?;
    if changed == 0 {
        return Err(not_found("open idea ", id));
    }
    Ok(())
}

/// Turn an open idea into a reel (title, pillar and notes carry over); the
/// idea keeps a link to it and is no longer open.
pub fn promote(conn: &rusqlite::Connection, id: &str) -> (r: Result<reels::ReelDetail>)
    ensures
        r matches Err(CoreError::Invalid(m)) ==> m@ == "reel title is required"@,
{
    let open = list(conn, Some("open"))?;
    let mut found: Option<usize> = None;
    let mut i: usize = 0;
    while i < open.len()
        invariant
            i <= open.len(),
            found matches Some(k) ==> k < open.len(),
        decreases open.len() - i,
    {
        if found.is_none() && str_eq(open[i].id.as_str(), id) {
            found = Some(i);
        }
        i += 1;
    }
    let idea = match found {
        Some(k) => &open[k],
        None => return Err(not_found("open idea ", id)),
    };
    let pillar: Option<&str> = match &idea.pillar_id {
        Some(p) => Some(p.as_str()),
        None => None,
    };
    let reel = reels::create(conn, idea.title.as_str(), pillar)?;
    if let Some(notes) = &idea.notes {
        reels::update_meta(conn, reel.id.as_str(), reel.title.as_str(), Some(notes.as_str()), pillar)?;
    }
    execute(
        conn,
        "UPDATE ideas SET status = 'promoted', reel_id = ?1 WHERE id = ?2",
        &crate::db::texts_write(&[reel.id.as_str(), id]),
    )?;
    reels::get_detail(conn, reel.id.as_str())
}

/// A row decodes as an idea: every column has the expected type.
pub open spec fn idea_row_ok(row: Seq<SqlValue>) -> bool {
    &&& text_cell(row, 0) is Some
    &&& text_cell(row, 1) is Some
    &&& opt_text_cell(row, 2) is Some
    &&& opt_text_cell(row, 3) is Some
    &&& text_cell(row, 4) is Some
    &&& opt_text_cell(row, 5) is Some
    &&& text_cell(row, 6) is Some
}

/// `x` is an idea decoded from `row`, column by column.
pub open spec fn idea_of_row(x: Idea, row: Seq<SqlValue>) -> bool {
    &&& text_cell(row, 0) == Some(x.id@)
    &&& text_cell(row, 1) == Some(x.title@)
    &&& opt_text_cell(row, 2) == Some(crate::text::opt_view(x.notes))
    &&& opt_text_cell(row, 3) == Some(crate::text::opt_view(x.pillar_id))
    &&& text_cell(row, 4) == Some(x.status@)
    &&& opt_text_cell(row, 5) == Some(crate::text::opt_view(x.reel_id))
    &&& text_cell(row, 6) == Some(x.created_at@)
}

/// `x` was decoded from some row.
pub open spec fn idea_decoded(x: Idea) -> bool {
    exists|row: Seq<SqlValue>| idea_of_row(x, row)
}

/// Decode an idea from a result row.
pub fn row_to_idea(r: &Row) -> (i: Result<Idea>)
    ensures
        i matches Err(e) ==> e is Sqlite,
        i is Ok <==> idea_row_ok(r@),
        i matches Ok(x) ==> idea_of_row(x, r@),
{
    Ok(Idea {
        id: col_text(r, 0)?,
        title: col_text(r, 1)?,
        notes: col_opt_text(r, 2)?,
        pillar_id: col_opt_text(r, 3)?,
        status: col_text(r, 4)?,
        reel_id: col_opt_text(r, 5)?,
        created_at: col_text(r, 6)?,
    })
}

/// Ideas, newest first; only those with the given status when one is given.
pub fn list(conn: &rusqlite::Connection, status: Option<&str>) -> (r: Result<Vec<Idea>>)
    ensures
        r matches Ok(v) ==> forall|k: int| 0 <= k < v.len() ==> idea_decoded(#[trigger] v@[k]),
        r matches Err(e) ==> e is Sqlite,
{
    let rows = query(
        conn,
        "SELECT id, title, notes, pillar_id, status, reel_id, created_at
         FROM ideas WHERE (?1 IS NULL OR status = ?1) ORDER BY created_at DESC",
        &vec![opt_text(status)],
    )?;
    let mut out: Vec<Idea> = Vec::new();
    let mut i: usize = 0;
    while i < rows.len()
        invariant
            i <= rows.len(),
            forall|k: int| 0 <= k < out.len() ==> idea_decoded(#[trigger] out@[k]),
        decreases rows.len() - i,
    {
        let x = row_to_idea(&rows[i])?;
        assert(idea_of_row(x, rows@[i as int]@));
        out.push(x);
        i += 1;
    }
    Ok(out)
}

} // verus!
