//! The background job queue: jobs are queued, claimed one at a time (oldest
//! first), and end done or failed; a failed job can be queued again.

use vstd::prelude::*;

use crate::db::{Param, Row, SqlValue, col_int, col_opt_text, col_text, execute, int_cell, opt_text, opt_text_cell, query, query_one, query_opt, text, text_cell};
use crate::json::{json_null, json_parse, json_text};
use crate::text::owned;
use crate::{CoreError, Result, ids, not_found};

verus! {

/// One queued piece of background work.
#[derive(Clone, Debug)]
pub struct Job {
    pub id: String,
    pub kind: String,
    pub payload: serde_json::Value,
    pub status: String,
    pub attempts: i64,
    pub error: Option<String>,
    pub created_at: String,
    pub finished_at: Option<String>,
}

/// Queue a job of `kind` carrying `payload`.
pub fn enqueue(conn: &rusqlite::Connection, kind: &str, payload: &serde_json::Value) -> (r: Result<Job>)
    ensures
        r matches Err(e) ==> e is Sqlite,
        r matches Ok(j) ==> {
            &&& j.kind@ == kind@
            &&& j.status@ == "queued"@
            &&& j.attempts == 0
            &&& j.error is None
            &&& j.finished_at is None
        },
{
    let payload_text = json_text(payload);
    let job = Job {
        id: ids::new_id(),
        kind: owned(kind),
        payload: payload.clone(),
        status: owned("queued"),
        attempts: 0,
        error: None,
        created_at: ids::now_iso(),
        finished_at: None,
    };
    execute(
        conn,
        "INSERT INTO jobs (id, kind, payload, status, attempts, created_at)
         VALUES (?1, ?2, ?3, 'queued', 0, ?4)",
        &crate::db::texts_write(&[job.id.as_str(), job.kind.as_str(), payload_text.as_str(), job.created_at.as_str()]),
    )?;
    Ok(job)
}

/// A row decodes as a job: every column has the expected type.
pub open spec fn job_row_ok(row: Seq<SqlValue>) -> bool {
    &&& text_cell(row, 0) is Some
    &&& text_cell(row, 1) is Some
    &&& text_cell(row, 2) is Some
    &&& text_cell(row, 3) is Some
    &&& int_cell(row, 4) is Some
    &&& opt_text_cell(row, 5) is Some
    &&& text_cell(row, 6) is Some
    &&& opt_text_cell(row, 7) is Some
}

/// `x` is a job decoded from `row`, column by column.
pub open spec fn job_of_row(x: Job, row: Seq<SqlValue>) -> bool {
    &&& text_cell(row, 0) == Some(x.id@)
    &&& text_cell(row, 1) == Some(x.kind@)
    &&& text_cell(row, 3) == Some(x.status@)
    &&& int_cell(row, 4) == Some(x.attempts)
    &&& opt_text_cell(row, 5) == Some(crate::text::opt_view(x.error))
    &&& text_cell(row, 6) == Some(x.created_at@)
    &&& opt_text_cell(row, 7) == Some(crate::text::opt_view(x.finished_at))
}

/// `x` was decoded from some row.
pub open spec fn job_decoded(x: Job) -> bool {
    exists|row: Seq<SqlValue>| job_of_row(x, row)
}

/// Decode a job from a result row.
pub fn row_to_job(r: &Row) -> (j: Result<Job>)
    ensures
        j matches Err(e) ==> e is Sqlite,
        j is Ok <==> job_row_ok(r@),
        j matches Ok(x) ==> job_of_row(x, r@),
{
    let payload_text = col_text(r, 2)?;
    let payload = match json_parse(payload_text.as_str()) {
        Some(v) => v,
        None => json_null(),
    };
    Ok(Job {
        id: col_text(r, 0)?,
        kind: col_text(r, 1)?,
        payload,
        status: col_text(r, 3)?,
        attempts: col_int(r, 4)?,
        error: col_opt_text(r, 5)?,
        created_at: col_text(r, 6)?,
        finished_at: col_opt_text(r, 7)?,
    })
}

fn get(conn: &rusqlite::Connection, id: &str) -> (r: Result<Job>)
    ensures
        r matches Ok(j) ==> job_decoded(j),
        r matches Err(e) ==> e is Sqlite,
{
    let row = query_one(
        conn,
        "SELECT id, kind, payload, status, attempts, error, created_at, finished_at
         FROM jobs WHERE id = ?1",
        &crate::db::texts_write(&[id]),
    )?;
    let j = row_to_job(&row)?;
    assert(job_of_row(j, row@));
    Ok(j)
}

/// Claim the oldest queued job: it becomes running and its attempts go up by
/// one. `None` when nothing is queued.
pub fn claim_next(conn: &rusqlite::Connection) -> (r: Result<Option<Job>>)
    ensures
        r matches Ok(Some(j)) ==> job_decoded(j),
        r matches Err(e) ==> e is Sqlite,
{
    let claimed = query_opt(
        conn,
        "UPDATE jobs SET status = 'running', attempts = attempts + 1
         WHERE id = (SELECT id FROM jobs WHERE status = 'queued'
                     ORDER BY created_at LIMIT 1)
         RETURNING id",
        &vec![],
    )?;
    match claimed {
        Some(row) => {
            let id = col_text(&row, 0)?;
            Ok(Some(get(conn, id.as_str())?))
        },
        None => Ok(None),
    }
}

/// The parameters of a finished job: its status, error text (NULL for none),
/// finish time, id.
pub fn finish_write(id: &str, status: &str, error: Option<&str>, now: String) -> (p: Vec<Param>)
    ensures
        crate::db::params_view(p@) == seq![
            crate::db::ParamView::Text(status@),
            crate::db::opt_text_view(crate::text::opt_view_str(error)),
            crate::db::ParamView::Text(now@),
            crate::db::ParamView::Text(id@),
        ],
{
    let ghost n = now@;
    let p = vec![text(status), opt_text(error), Param::Text(now), text(id)];
    assert(crate::db::params_view(p@) =~= seq![
        crate::db::ParamView::Text(status@),
        crate::db::opt_text_view(crate::text::opt_view_str(error)),
        crate::db::ParamView::Text(n),
        crate::db::ParamView::Text(id@),
    ]);
    p
}

fn finish(conn: &rusqlite::Connection, id: &str, status: &str, error: Option<&str>) -> (r: Result<()>)
    ensures
        !(r matches Err(CoreError::Invalid(_))),
        r matches Err(CoreError::NotFound(m)) ==> m@ == "job "@ + id@,
{
    let changed = execute(
        conn,
        "UPDATE jobs SET status = ?1, error = ?2, finished_at = ?3 WHERE id = ?4",
        &finish_write(id, status, error, ids::now_iso()),
    )?;
    if changed == 0 {
        return Err(not_found("job ", id));
    }
    Ok(())
}

/// Mark a job done.
pub fn complete(conn: &rusqlite::Connection, id: &str) -> (r: Result<()>)
    ensures
        !(r matches Err(CoreError::Invalid(_))),
        r matches Err(CoreError::NotFound(m)) ==> m@ == "job "@ + id@,
{
    finish(conn, id, "done", None)
}

/// Mark a job failed with the error text.
pub fn fail(conn: &rusqlite::Connection, id: &str, error: &str) -> (r: Result<()>)
    ensures
        !(r matches Err(CoreError::Invalid(_))),
        r matches Err(CoreError::NotFound(m)) ==> m@ == "job "@ + id@,
{
    finish(conn, id, "failed", Some(error))
}

/// Queue a failed job again (the Problems feed's retry button); a job that
/// is not failed is not found.
pub fn retry(conn: &rusqlite::Connection, id: &str) -> (r: Result<()>)
    ensures
        !(r matches Err(CoreError::Invalid(_))),
        r matches Err(CoreError::NotFound(m)) ==> m@ == "failed job "@ + id@,
{
    let changed = execute(
        conn,
        "UPDATE jobs SET status = 'queued', error = NULL, finished_at = NULL
         WHERE id = ?1 AND status = 'failed'",
        &crate::db::texts_write(&[id]),
    )?;
    if changed == 0 {
        return Err(not_found("failed job ", id));
    }
    Ok(())
}

/// The most recently created jobs, newest first, at most `limit`.
pub fn list_recent(conn: &rusqlite::Connection, limit: i64) -> (r: Result<Vec<Job>>)
    ensures
        r matches Ok(v) ==> forall|k: int| 0 <= k < v.len() ==> job_decoded(#[trigger] v@[k]),
        r matches Err(e) ==> e is Sqlite,
{
    let rows = query(
        conn,
        "SELECT id, kind, payload, status, attempts, error, created_at, finished_at
         FROM jobs ORDER BY created_at DESC LIMIT ?1",
        &vec![Param::Int(limit)],
    )?;
    let mut out: Vec<Job> = Vec::new();
    let mut i: usize = 0;
    while i < rows.len()
        invariant
            i <= rows.len(),
            forall|k: int| 0 <= k < out.len() ==> job_decoded(#[trigger] out@[k]),
        decreases rows.len() - i,
    {
        let x = row_to_job(&rows[i])?;
        assert(job_of_row(x, rows@[i as int]@));
        out.push(x);
        i += 1;
    }
    Ok(out)
}

/// How many jobs have failed.
pub fn count_failed(conn: &rusqlite::Connection) -> (r: Result<i64>)
    ensures
        r matches Err(e) ==> e is Sqlite,
{
    let row = query_one(conn, "SELECT COUNT(*) FROM jobs WHERE status = 'failed'", &vec![])?;
    col_int(&row, 0)
}

} // verus!
