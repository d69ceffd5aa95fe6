//! Publishing: one post per reel and platform, the tracking board's status
//! moves (which pull the reel's own status forward), schedule filling, and the
//! pieces of the CSV export bundle for Metricool's bulk import.

use vstd::prelude::*;

use crate::db::{Param, Row, SqlValue, col_opt_text, col_text, execute, opt_text, opt_text_cell, query, query_one, query_opt, text, text_cell};
use crate::json::{json_parse_string_list, json_string_list};
use crate::reels::{self, Stage, pipeline_index, rank_of, stage_name, status_rank};
use crate::search::{escape_quotes, lemma_undouble_escaped, undouble};
use crate::text::{chars_of, is_blank, join, owned, push_char, str_eq, trim, views};
use crate::{CoreError, Result, activity, clock, ids, invalid_with, not_found};

verus! {

/// The folder, inside a storage root, that receives export bundles.
pub const PUBLISH_DIR: &'static str = "06_PUBLISH";

/// The first line of the bulk-import CSV.
pub const CSV_HEADER: &'static str = "Text,Date,Time,Draft,Instagram,TikTok,YouTube\n";

/// The CSV's file name inside a bundle folder.
pub const CSV_FILE: &'static str = "metricool_import.csv";

// ── platforms and post statuses ─────────────────────────────────

/// The platforms a reel can be posted to.
pub open spec fn platform_ok(p: Seq<char>) -> bool {
    p == "instagram"@ || p == "tiktok"@ || p == "youtube"@
}

/// Whether `p` is a known platform.
pub fn is_platform(p: &str) -> (b: bool)
    ensures
        b == platform_ok(p@),
{
    str_eq(p, "instagram") || str_eq(p, "tiktok") || str_eq(p, "youtube")
}

/// The statuses a post may have.
pub open spec fn post_status_ok(s: Seq<char>) -> bool {
    ||| s == "draft"@
    ||| s == "queued"@
    ||| s == "pushed"@
    ||| s == "scheduled"@
    ||| s == "published"@
    ||| s == "verified"@
    ||| s == "failed"@
    ||| s == "canceled"@
}

/// Whether `s` is a post status.
pub fn is_post_status(s: &str) -> (b: bool)
    ensures
        b == post_status_ok(s@),
{
    str_eq(s, "draft") || str_eq(s, "queued") || str_eq(s, "pushed") || str_eq(s, "scheduled")
        || str_eq(s, "published") || str_eq(s, "verified") || str_eq(s, "failed") || str_eq(
        s,
        "canceled",
    )
}

/// The two-letter tag of a platform in staged file names.
pub open spec fn platform_short_spec(p: Seq<char>) -> Seq<char> {
    if p == "instagram"@ {
        "IG"@
    } else if p == "tiktok"@ {
        "TT"@
    } else if p == "youtube"@ {
        "YT"@
    } else {
        "??"@
    }
}

/// The two-letter tag of a platform ("??" for an unknown one).
pub fn platform_short(platform: &str) -> (s: &'static str)
    ensures
        s@ == platform_short_spec(platform@),
{
    if str_eq(platform, "instagram") {
        "IG"
    } else if str_eq(platform, "tiktok") {
        "TT"
    } else if str_eq(platform, "youtube") {
        "YT"
    } else {
        "??"
    }
}

/// The column a status move stamps with the current time, if any.
pub open spec fn timestamp_column_spec(status: Seq<char>) -> Seq<char> {
    if status == "published"@ {
        "published_at"@
    } else if status == "verified"@ {
        "verified_at"@
    } else if status == "pushed"@ || status == "scheduled"@ {
        "pushed_at"@
    } else {
        ""@
    }
}

/// The column a status move stamps with the current time ("" for none).
pub fn timestamp_column(status: &str) -> (c: &'static str)
    ensures
        c@ == timestamp_column_spec(status@),
{
    if str_eq(status, "published") {
        "published_at"
    } else if str_eq(status, "verified") {
        "verified_at"
    } else if str_eq(status, "pushed") || str_eq(status, "scheduled") {
        "pushed_at"
    } else {
        ""
    }
}

// ── records ──────────────────────────────────────────────────────

/// One post on the tracking board, with its reel's facts.
#[derive(Clone, Debug)]
pub struct PostView {
    pub id: String,
    pub reel_id: String,
    pub reel_code: String,
    pub reel_title: String,
    pub reel_status: String,
    pub target_date: Option<String>,
    pub platform: String,
    pub caption: Option<String>,
    pub hashtags: Vec<String>,
    pub scheduled_at: Option<String>,
    pub status: String,
    pub error: Option<String>,
    pub final_filename: Option<String>,
}

/// What an export bundle produced.
#[derive(Clone, Debug)]
pub struct ExportBundle {
    pub folder: String,
    pub csv_path: String,
    /// "R0142 · instagram" per exported post.
    pub exported: Vec<String>,
    /// Why each other post was left out.
    pub skipped: Vec<String>,
}

/// Whether every platform of `ps` up to `n` is known.
pub open spec fn platforms_ok_upto(ps: Seq<Seq<char>>, n: int) -> bool {
    forall|i: int| 0 <= i < n ==> platform_ok(#[trigger] ps[i])
}

/// Create missing draft posts for a reel on the given platforms (idempotent).
/// Platforms are taken in order; an unknown one stops the run with an error.
pub fn ensure_posts(conn: &rusqlite::Connection, reel_id: &str, platforms: &[String]) -> (r: Result<()>)
    ensures
        r is Ok ==> platforms_ok_upto(views(platforms@), platforms@.len() as int),
        r matches Err(CoreError::Invalid(m)) ==> exists|i: int|
            0 <= i < platforms@.len() && platforms_ok_upto(views(platforms@), i) && !platform_ok(
                #[trigger] platforms@[i]@,
            ) && m@ == "unknown platform: "@ + platforms@[i]@,
        r matches Err(CoreError::NotFound(m)) ==> m@ == "reel "@ + reel_id@,
{
    reels::get_detail(conn, reel_id)?;
    let mut i: usize = 0;
    while i < platforms.len()
        invariant
            i <= platforms.len(),
            platforms_ok_upto(views(platforms@), i as int),
        decreases platforms.len() - i,
    {
        let platform = platforms[i].as_str();
        if !is_platform(platform) {
            assert(views(platforms@)[i as int] == platforms@[i as int]@);
            return Err(invalid_with("unknown platform: ", platform));
        }
        let post_id = ids::new_id();
        match execute(
            conn,
            "INSERT INTO posts (id, reel_id, platform) VALUES (?1, ?2, ?3)
             ON CONFLICT(reel_id, platform) DO NOTHING",
            &crate::db::texts_write(&[post_id.as_str(), reel_id, platform]),
        ) {
            Ok(_) => {},
            Err(e) => return Err(e),
        }
        assert(views(platforms@)[i as int] == platforms@[i as int]@);
        i += 1;
    }
    Ok(())
}

/// A row decodes as a post on the board: every column has the expected type.
pub open spec fn post_row_ok(row: Seq<SqlValue>) -> bool {
    &&& text_cell(row, 0) is Some
    &&& text_cell(row, 1) is Some
    &&& text_cell(row, 2) is Some
    &&& text_cell(row, 3) is Some
    &&& text_cell(row, 4) is Some
    &&& opt_text_cell(row, 5) is Some
    &&& text_cell(row, 6) is Some
    &&& opt_text_cell(row, 7) is Some
    &&& opt_text_cell(row, 8) is Some
    &&& opt_text_cell(row, 9) is Some
    &&& text_cell(row, 10) is Some
    &&& opt_text_cell(row, 11) is Some
    &&& opt_text_cell(row, 12) is Some
}

/// `x` is a post on the board decoded from `row`, column by column.
pub open spec fn post_of_row(x: PostView, row: Seq<SqlValue>) -> bool {
    &&& text_cell(row, 0) == Some(x.id@)
    &&& text_cell(row, 1) == Some(x.reel_id@)
    &&& text_cell(row, 2) == Some(x.reel_code@)
    &&& text_cell(row, 3) == Some(x.reel_title@)
    &&& text_cell(row, 4) == Some(x.reel_status@)
    &&& opt_text_cell(row, 5) == Some(crate::text::opt_view(x.target_date))
    &&& text_cell(row, 6) == Some(x.platform@)
    &&& opt_text_cell(row, 7) == Some(crate::text::opt_view(x.caption))
    &&& crate::text::views(x.hashtags@) == (match opt_text_cell(row, 8) {
        Some(Some(h)) => crate::json::string_list_of_json(h),
        _ => Seq::empty(),
    })
    &&& opt_text_cell(row, 9) == Some(crate::text::opt_view(x.scheduled_at))
    &&& text_cell(row, 10) == Some(x.status@)
    &&& opt_text_cell(row, 11) == Some(crate::text::opt_view(x.error))
    &&& opt_text_cell(row, 12) == Some(crate::text::opt_view(x.final_filename))
}

/// `x` was decoded from some row.
pub open spec fn post_decoded(x: PostView) -> bool {
    exists|row: Seq<SqlValue>| post_of_row(x, row)
}

/// Decode a post on the board from a result row.
pub fn row_to_post(r: &Row) -> (p: Result<PostView>)
    ensures
        p matches Err(e) ==> e is Sqlite,
        p is Ok <==> post_row_ok(r@),
        p matches Ok(x) ==> post_of_row(x, r@),
{
    let hashtags = match col_opt_text(r, 8)? {
        Some(h) => json_parse_string_list(h.as_str()),
        None => {
            let v: Vec<String> = Vec::new();
            assert(views(v@) =~= Seq::<Seq<char>>::empty());
            v
        },
    };
    Ok(PostView {
        id: col_text(r, 0)?,
        reel_id: col_text(r, 1)?,
        reel_code: col_text(r, 2)?,
        reel_title: col_text(r, 3)?,
        reel_status: col_text(r, 4)?,
        target_date: col_opt_text(r, 5)?,
        platform: col_text(r, 6)?,
        caption: col_opt_text(r, 7)?,
        hashtags,
        scheduled_at: col_opt_text(r, 9)?,
        status: col_text(r, 10)?,
        error: col_opt_text(r, 11)?,
        final_filename: col_opt_text(r, 12)?,
    })
}

/// The posts on the board, only those in `status` when given: unscheduled
/// first, then by schedule time, reel code and platform.
pub fn list_posts(conn: &rusqlite::Connection, status: Option<&str>) -> (r: Result<Vec<PostView>>)
    ensures
        r matches Ok(v) ==> forall|k: int| 0 <= k < v.len() ==> post_decoded(#[trigger] v@[k]),
        r matches Err(e) ==> e is Sqlite,
{
    let rows = query(
        conn,
        "SELECT p.id, p.reel_id, r.code, r.title, r.status, r.target_date,
                p.platform, p.caption, p.hashtags, p.scheduled_at, p.status, p.error,
                a.filename
         FROM posts p
         JOIN reels r ON r.id = p.reel_id
         LEFT JOIN assets a ON a.id = r.final_asset_id
         WHERE (?1 IS NULL OR p.status = ?1)
         ORDER BY p.scheduled_at IS NULL DESC, p.scheduled_at, r.code, p.platform",
        &vec![opt_text(status)],
    )?;
    let mut out: Vec<PostView> = Vec::new();
    let mut i: usize = 0;
    while i < rows.len()
        invariant
            i <= rows.len(),
            forall|k: int| 0 <= k < out.len() ==> post_decoded(#[trigger] out@[k]),
        decreases rows.len() - i,
    {
        let x = row_to_post(&rows[i])?;
        assert(post_of_row(x, rows@[i as int]@));
        out.push(x);
        i += 1;
    }
    Ok(out)
}

/// The parameters of a post's update: caption, hashtags as a JSON list,
/// schedule time, id.
pub fn post_update_write(id: &str, caption: Option<&str>, hashtags: &[String], scheduled_at: Option<&str>) -> (p: Vec<Param>)
    ensures
        crate::db::params_view(p@) == seq![
            crate::db::opt_text_view(crate::text::opt_view_str(caption)),
            crate::db::ParamView::Text(crate::json::string_list_json(views(hashtags@))),
            crate::db::opt_text_view(crate::text::opt_view_str(scheduled_at)),
            crate::db::ParamView::Text(id@),
        ],
{
    let p = vec![opt_text(caption), Param::Text(json_string_list(hashtags)), opt_text(scheduled_at), text(id)];
    assert(crate::db::params_view(p@) =~= seq![
        crate::db::opt_text_view(crate::text::opt_view_str(caption)),
        crate::db::ParamView::Text(crate::json::string_list_json(views(hashtags@))),
        crate::db::opt_text_view(crate::text::opt_view_str(scheduled_at)),
        crate::db::ParamView::Text(id@),
    ]);
    p
}

/// Set a post's caption, hashtags and schedule time. A schedule time must be
/// a naive local date-time "YYYY-MM-DDTHH:MM" that chrono accepts.
pub fn update_post(
    conn: &rusqlite::Connection,
    id: &str,
    caption: Option<&str>,
    hashtags: &[String],
    scheduled_at: Option<&str>,
) -> (r: Result<()>)
    ensures
        scheduled_at is Some && !clock::datetime_parses(scheduled_at->0@) ==> (r matches Err(
            CoreError::Invalid(m),
        ) && m@ == "invalid schedule time (want YYYY-MM-DDTHH:MM): "@ + scheduled_at->0@),
        r matches Err(CoreError::Invalid(_)) ==> (scheduled_at is Some && !clock::datetime_parses(
            scheduled_at->0@,
        )),
        r matches Err(CoreError::NotFound(m)) ==> m@ == "post "@ + id@,
{
    if let Some(s) = scheduled_at {
        if !clock::parses_datetime(s) {
            return Err(invalid_with("invalid schedule time (want YYYY-MM-DDTHH:MM): ", s));
        }
    }
    let changed = execute(
        conn,
        "UPDATE posts SET caption = ?1, hashtags = ?2, scheduled_at = ?3 WHERE id = ?4",
        &post_update_write(id, caption, hashtags, scheduled_at),
    )?;
    if changed == 0 {
        return Err(not_found("post ", id));
    }
    Ok(())
}

/// The statement of a status move: the status and error always, plus the
/// time stamp column when the status has one.
pub open spec fn status_update_sql(ts_col: Seq<char>) -> Seq<char> {
    if ts_col.len() == 0 {
        "UPDATE posts SET status = ?1, error = ?2 WHERE id = ?3"@
    } else {
        "UPDATE posts SET status = ?1, error = ?2, "@ + ts_col + " = ?4 WHERE id = ?3"@
    }
}

fn status_update(ts_col: &str) -> (sql: String)
    ensures
        sql@ == status_update_sql(ts_col@),
{
    if ts_col.is_empty() {
        owned("UPDATE posts SET status = ?1, error = ?2 WHERE id = ?3")
    } else {
        let mut s = String::from_str("UPDATE posts SET status = ?1, error = ?2, ");
        s.append(ts_col);
        s.append(" = ?4 WHERE id = ?3");
        s
    }
}

/// Manual status moves on the tracking board. A move to published, verified,
/// pushed or scheduled stamps the matching time column. The reel's own status
/// is then pulled forward from its posts (see `sync_target`).
/// The parameters of a post's status update (see `status_update`): status,
/// error, id, and the current time when the status stamps a column.
pub fn post_status_write(id: &str, status: &str, error: Option<&str>, now: String) -> (p: Vec<Param>)
    ensures
        crate::db::params_view(p@) == seq![
            crate::db::ParamView::Text(status@),
            crate::db::opt_text_view(crate::text::opt_view_str(error)),
            crate::db::ParamView::Text(id@),
        ] + (if timestamp_column_spec(status@).len() > 0 {
            seq![crate::db::ParamView::Text(now@)]
        } else {
            Seq::empty()
        }),
{
    let mut p = vec![text(status), opt_text(error), text(id)];
    let ghost head = p@;
    assert(crate::db::params_view(head) =~= seq![
        crate::db::ParamView::Text(status@),
        crate::db::opt_text_view(crate::text::opt_view_str(error)),
        crate::db::ParamView::Text(id@),
    ]);
    if !timestamp_column(status).is_empty() {
        p.push(Param::Text(now));
        assert(crate::db::params_view(p@) =~= crate::db::params_view(head) + seq![crate::db::ParamView::Text(now@)]);
    } else {
        assert(crate::db::params_view(p@) =~= crate::db::params_view(head) + Seq::empty());
    }
    p
}

pub fn set_post_status(conn: &rusqlite::Connection, id: &str, status: &str, error: Option<&str>) -> (r:
    Result<()>)
    ensures
        !post_status_ok(status@) ==> (r matches Err(CoreError::Invalid(m)) && m@
            == "invalid post status: "@ + status@),
        r matches Err(CoreError::Invalid(_)) ==> !post_status_ok(status@),
{
    if !is_post_status(status) {
        return Err(invalid_with("invalid post status: ", status));
    }
    let ts_col = timestamp_column(status);
    let sql = status_update(ts_col);
    let params = post_status_write(id, status, error, ids::now_iso());
    let changed = execute(conn, sql.as_str(), &params)?;
    if changed == 0 {
        return Err(not_found("post ", id));
    }
    let row = query_one(conn, "SELECT reel_id FROM posts WHERE id = ?1", &crate::db::texts_write(&[id]))?;
    let reel_id = col_text(&row, 0)?;
    sync_reel(conn, reel_id.as_str())
}

// ── schedule filling ─────────────────────────────────────────────

/// No platform occurs twice among the default times.
pub open spec fn distinct_platforms(times: Seq<(String, String)>) -> bool {
    forall|i: int, j: int| 0 <= i < j < times.len() ==> times[i].0@ != times[j].0@
}

/// The default time for `platform`, if one is given.
pub open spec fn time_for_spec(times: Seq<(String, String)>, platform: Seq<char>) -> Option<Seq<char>>
    decreases times.len(),
{
    if times.len() == 0 {
        None
    } else if times[0].0@ == platform {
        Some(times[0].1@)
    } else {
        time_for_spec(times.drop_first(), platform)
    }
}

/// The default time for `platform`, if one is given.
pub fn time_for(times: &[(String, String)], platform: &str) -> (r: Option<String>)
    ensures
        r matches Some(t) ==> time_for_spec(times@, platform@) == Some(t@),
        r is None ==> time_for_spec(times@, platform@) is None,
{
    let mut i: usize = 0;
    assert(times@.skip(0) =~= times@);
    while i < times.len()
        invariant
            i <= times.len(),
            time_for_spec(times@, platform@) == time_for_spec(times@.skip(i as int), platform@),
        decreases times.len() - i,
    {
        assert(times@.skip(i as int).drop_first() =~= times@.skip(i + 1));
        if str_eq(times[i].0.as_str(), platform) {
            return Some(owned(times[i].1.as_str()));
        }
        i += 1;
    }
    None
}

/// The schedule time a post gets from its reel's target date and the
/// platform's default time: only unscheduled draft or queued posts get one.
pub open spec fn fill_slot_spec(
    status: Seq<char>,
    scheduled_at: Option<Seq<char>>,
    target_date: Option<Seq<char>>,
    time: Option<Seq<char>>,
) -> Option<Seq<char>> {
    if !(status == "draft"@ || status == "queued"@) || scheduled_at is Some {
        None
    } else {
        match (target_date, time) {
            (Some(d), Some(t)) => Some(d + "T"@ + t),
            _ => None,
        }
    }
}

/// The schedule time a post gets from the default times, if any.
pub fn fill_slot(p: &PostView, times: &[(String, String)]) -> (r: Option<String>)
    ensures
        p.scheduled_at is Some ==> r is None,
        r is Some ==> p.scheduled_at is None && (p.status@ == "draft"@ || p.status@ == "queued"@),
        r matches Some(s) ==> (p.target_date is Some && time_for_spec(times@, p.platform@) is Some && s@
            == p.target_date->0@ + "T"@ + time_for_spec(times@, p.platform@)->0),
        r matches Some(s) ==> fill_slot_spec(
            p.status@,
            crate::text::opt_view(p.scheduled_at),
            crate::text::opt_view(p.target_date),
            time_for_spec(times@, p.platform@),
        ) == Some(s@),
        r is None ==> fill_slot_spec(
            p.status@,
            crate::text::opt_view(p.scheduled_at),
            crate::text::opt_view(p.target_date),
            time_for_spec(times@, p.platform@),
        ) is None,
{
    if !(str_eq(p.status.as_str(), "draft") || str_eq(p.status.as_str(), "queued"))
        || p.scheduled_at.is_some() {
        return None;
    }
    let date = match &p.target_date {
        Some(d) => d,
        None => return None,
    };
    let time = match time_for(times, p.platform.as_str()) {
        Some(t) => t,
        None => return None,
    };
    let mut s = String::from_str(date.as_str());
    s.append("T");
    s.append(time.as_str());
    Some(s)
}

/// The parameters that schedule a post: the time, then the post id.
pub fn schedule_write(scheduled: String, post_id: &str) -> (p: Vec<Param>)
    ensures
        crate::db::params_view(p@) == seq![crate::db::ParamView::Text(scheduled@), crate::db::ParamView::Text(post_id@)],
{
    let ghost s = scheduled@;
    let p = vec![Param::Text(scheduled), text(post_id)];
    assert(crate::db::params_view(p@) =~= seq![crate::db::ParamView::Text(s), crate::db::ParamView::Text(post_id@)]);
    p
}

/// The schedule write a post gets from the default times, if any: its id
/// and its new schedule time.
pub open spec fn slot_of(times: Seq<(String, String)>) -> spec_fn(PostView) -> Option<(Seq<char>, Seq<char>)> {
    |p: PostView|
        match fill_slot_spec(
            p.status@,
            crate::text::opt_view(p.scheduled_at),
            crate::text::opt_view(p.target_date),
            time_for_spec(times, p.platform@),
        ) {
            Some(s) => Some((p.id@, s)),
            None => None,
        }
}

/// The write `w` (post id, new time) is for post `p`, an unscheduled draft
/// or queued post, at its reel's target date and its platform's default time.
pub open spec fn filled_from(p: PostView, times: Seq<(String, String)>, w: (Seq<char>, Seq<char>)) -> bool {
    &&& p.id@ == w.0
    &&& p.scheduled_at is None
    &&& (p.status@ == "draft"@ || p.status@ == "queued"@)
    &&& p.target_date is Some
    &&& time_for_spec(times, p.platform@) is Some
    &&& w.1 == p.target_date->0@ + "T"@ + time_for_spec(times, p.platform@)->0
}

/// Write `k` planned for `ps` is for one of the posts of `ps` (see
/// `filled_from`).
pub open spec fn write_from_list(ps: Seq<PostView>, times: Seq<(String, String)>, k: int) -> bool {
    exists|i: int| 0 <= i < ps.len() && #[trigger] filled_from(ps[i], times, ps.filter_map(slot_of(times))[k])
}

proof fn lemma_fill_entry(ps: Seq<PostView>, times: Seq<(String, String)>, k: int)
    requires
        0 <= k < ps.filter_map(slot_of(times)).len(),
    ensures
        write_from_list(ps, times, k),
    decreases ps.len(),
{
    let pre = ps.drop_last();
    let last = ps.last();
    let fm = ps.filter_map(slot_of(times));
    let pm = pre.filter_map(slot_of(times));
    assert(fm == match slot_of(times)(last) {
        Some(w) => pm + seq![w],
        None => pm,
    });
    if k < pm.len() {
        lemma_fill_entry(pre, times, k);
        assert(write_from_list(pre, times, k));
        assert(fm[k] == pm[k]);
        let i = choose|i: int| 0 <= i < pre.len() && #[trigger] filled_from(pre[i], times, pm[k]);
        assert(ps[i] == pre[i]);
        assert(filled_from(ps[i], times, fm[k]));
    } else {
        let i = ps.len() - 1;
        assert(ps[i] == last);
        assert(filled_from(ps[i], times, fm[k]));
    }
}

/// Bulk filling only ever schedules unscheduled draft or queued posts: a post
/// that already has a time gets no new one, and every write planned for a
/// list of posts is for such a post of the list, at its reel's target date
/// and its platform's default time.
pub proof fn lemma_fill_only_unscheduled(ps: Seq<PostView>, times: Seq<(String, String)>)
    ensures
        forall|p: PostView| p.scheduled_at is Some ==> #[trigger] (slot_of(times))(p) is None,
        forall|k: int| 0 <= k < ps.filter_map(slot_of(times)).len() ==> #[trigger] write_from_list(ps, times, k),
{
    assert forall|k: int| 0 <= k < ps.filter_map(slot_of(times)).len() implies #[trigger] write_from_list(ps, times, k) by {
        lemma_fill_entry(ps, times, k);
    }
}

/// The plain form of a list of (id, time) pairs.
pub open spec fn pair_views(v: Seq<(String, String)>) -> Seq<(Seq<char>, Seq<char>)> {
    v.map_values(|x: (String, String)| (x.0@, x.1@))
}

/// The schedule writes for `posts`: each post that `fill_slot` fills, in
/// order, with its new time.
pub fn schedule_plan(posts: &[PostView], times: &[(String, String)]) -> (plan: Vec<(String, String)>)
    ensures
        pair_views(plan@) == posts@.filter_map(slot_of(times@)),
{
    let mut plan: Vec<(String, String)> = Vec::new();
    let mut i: usize = 0;
    assert(posts@.take(0) =~= Seq::<PostView>::empty());
    while i < posts.len()
        invariant
            i <= posts.len(),
            pair_views(plan@) == posts@.take(i as int).filter_map(slot_of(times@)),
        decreases posts.len() - i,
    {
        let ghost pre = posts@.take(i as int);
        let ghost cur = posts@.take(i + 1);
        proof {
            assert(cur.drop_last() =~= pre);
            assert(cur.last() == posts@[i as int]);
        }
        let ghost before = plan@;
        match fill_slot(&posts[i], times) {
            Some(scheduled) => {
                let ghost sv = scheduled@;
                plan.push((owned(posts[i].id.as_str()), scheduled));
                proof {
                    assert(pair_views(plan@) =~= pair_views(before).push((posts@[i as int].id@, sv)));
                    assert(cur.filter_map(slot_of(times@)) =~= pre.filter_map(slot_of(times@)) + seq![(posts@[i as int].id@, sv)]);
                }
            },
            None => {
                proof {
                    assert(cur.filter_map(slot_of(times@)) =~= pre.filter_map(slot_of(times@)));
                }
            },
        }
        i += 1;
    }
    assert(posts@.take(posts.len() as int) =~= posts@);
    plan
}

/// Assign schedule times to unscheduled draft/queued posts from their reel's
/// calendar target date plus the platform's default time (`times` pairs a
/// platform with its "HH:MM"): the posts on the board are listed and
/// `schedule_plan` gives the writes. Returns how many posts were filled.
pub fn bulk_fill_schedule(conn: &rusqlite::Connection, times: &[(String, String)]) -> (r: Result<i64>)
    requires
        distinct_platforms(times@),
    ensures
        r matches Err(e) ==> e is Sqlite,
        r matches Ok(n) ==> exists|ps: Seq<PostView>|
            #[trigger] ps.filter_map(slot_of(times@)).len() == n || (ps.filter_map(slot_of(times@)).len()
                > i64::MAX && n == i64::MAX),
{
    let posts = list_posts(conn, None)?;
    let plan = schedule_plan(posts.as_slice(), times);
    let mut i: usize = 0;
    while i < plan.len()
        invariant
            i <= plan.len(),
        decreases plan.len() - i,
    {
        execute(
            conn,
            "UPDATE posts SET scheduled_at = ?1 WHERE id = ?2",
            &schedule_write(owned(plan[i].1.as_str()), plan[i].0.as_str()),
        )?;
        i += 1;
    }
    let ghost ps = posts@;
    let filled = plan.len() as u64;
    let n: i64 = if filled > 0x7fff_ffff_ffff_ffff {
        0x7fff_ffff_ffff_ffff
    } else {
        filled as i64
    };
    proof {
        assert(pair_views(plan@).len() == plan.len());
        assert(ps.filter_map(slot_of(times@)).len() == plan.len());
    }
    Ok(n)
}

// ── the CSV export bundle ────────────────────────────────────────

/// `s` without any `c`.
pub open spec fn remove_char(s: Seq<char>, c: char) -> Seq<char>
    decreases s.len(),
{
    if s.len() == 0 {
        s
    } else if s.last() == c {
        remove_char(s.drop_last(), c)
    } else {
        remove_char(s.drop_last(), c).push(s.last())
    }
}

/// `s` without any `c` (`str::replace(c, "")`).
pub fn without_char(s: &str, c: char) -> (r: String)
    ensures
        r@ == remove_char(s@, c),
{
    let v = chars_of(s);
    let mut out = String::new();
    let mut i: usize = 0;
    while i < v.len()
        invariant
            i <= v.len(),
            v@ == s@,
            out@ == remove_char(s@.subrange(0, i as int), c),
        decreases v.len() - i,
    {
        assert(s@.subrange(0, i + 1).drop_last() =~= s@.subrange(0, i as int));
        if v[i] != c {
            push_char(&mut out, v[i]);
        }
        i += 1;
    }
    assert(s@.subrange(0, v.len() as int) =~= s@);
    out
}

/// The bundle time stamp: the current RFC 3339 time without '-' and ':', cut
/// to "YYYYMMDDTHHMM".
pub open spec fn bundle_stamp_spec(now: Seq<char>) -> Seq<char> {
    remove_char(remove_char(now, ':'), '-').subrange(0, 13)
}

/// The bundle time stamp of the time `now`. The stamp is cut at the 13th
/// character, which must exist and close an ASCII prefix: a cut by bytes
/// would land inside a character otherwise.
pub fn bundle_stamp(now: &str) -> (r: String)
    requires
        remove_char(remove_char(now@, ':'), '-').len() >= 13,
        forall|i: int| 0 <= i < 13 ==> (remove_char(remove_char(now@, ':'), '-')[i] as u32) < 128,
    ensures
        r@ == bundle_stamp_spec(now@),
{
    let a = without_char(now, ':');
    let b = without_char(a.as_str(), '-');
    let v = chars_of(b.as_str());
    let mut out = String::new();
    crate::text::push_range(&mut out, &v, 0, 13);
    out
}

/// Whether a time is long enough, and ASCII where it is cut, to give a
/// bundle stamp (see `bundle_stamp`).
pub fn stamp_fits(now: &str) -> (b: bool)
    ensures
        b == (remove_char(remove_char(now@, ':'), '-').len() >= 13 && forall|i: int|
            0 <= i < 13 ==> (remove_char(remove_char(now@, ':'), '-')[i] as u32) < 128),
{
    let a = without_char(now, ':');
    let b = without_char(a.as_str(), '-');
    let v = chars_of(b.as_str());
    if v.len() < 13 {
        return false;
    }
    let mut i: usize = 0;
    while i < 13
        invariant
            i <= 13,
            13 <= v.len(),
            v@ == remove_char(remove_char(now@, ':'), '-'),
            forall|j: int| 0 <= j < i ==> (v@[j] as u32) < 128,
        decreases 13 - i,
    {
        if (v[i] as u32) >= 128 {
            assert(!((v@[i as int] as u32) < 128));
            return false;
        }
        i += 1;
    }
    true
}

/// The bundle's folder name inside `06_PUBLISH`.
pub fn bundle_folder_name(stamp: &str) -> (r: String)
    ensures
        r@ == "bundle_"@ + stamp@,
{
    crate::text::concat2("bundle_", stamp)
}

/// A post's label in the bundle report: "R0142 · instagram".
pub open spec fn post_label_spec(code: Seq<char>, platform: Seq<char>) -> Seq<char> {
    code + " · "@ + platform
}

/// Index of the first `c` in `s`, or -1.
pub open spec fn first_index_of(s: Seq<char>, c: char) -> int
    decreases s.len(),
{
    if s.len() == 0 {
        -1
    } else if s[0] == c {
        0
    } else {
        let k = first_index_of(s.drop_first(), c);
        if k < 0 {
            -1
        } else {
            k + 1
        }
    }
}

proof fn lemma_first_index(s: Seq<char>, c: char)
    ensures
        -1 <= first_index_of(s, c) < s.len(),
        first_index_of(s, c) >= 0 ==> s[first_index_of(s, c)] == c,
        forall|j: int| 0 <= j < s.len() && (first_index_of(s, c) < 0 || j < first_index_of(s, c))
            ==> s[j] != c,
    decreases s.len(),
{
    if s.len() > 0 && s[0] != c {
        lemma_first_index(s.drop_first(), c);
        assert forall|j: int| 0 <= j < s.len() && (first_index_of(s, c) < 0 || j < first_index_of(s, c)) implies s[j] != c by {
            if j > 0 {
                assert(s[j] == s.drop_first()[j - 1]);
            }
        }
    }
}

/// A schedule time split at its first 'T' into date and time; "00:00" when
/// there is no 'T'.
pub open spec fn split_schedule_spec(s: Seq<char>) -> (Seq<char>, Seq<char>) {
    let i = first_index_of(s, 'T');
    if i < 0 {
        (s, "00:00"@)
    } else {
        (s.subrange(0, i), s.subrange(i + 1, s.len() as int))
    }
}

/// A schedule time split into date and time.
pub fn split_schedule(s: &str) -> (r: (String, String))
    ensures
        r.0@ == split_schedule_spec(s@).0,
        r.1@ == split_schedule_spec(s@).1,
{
    let v = chars_of(s);
    let mut i: usize = 0;
    proof {
        lemma_first_index(s@, 'T');
    }
    while i < v.len() && v[i] != 'T'
        invariant
            i <= v.len(),
            v@ == s@,
            forall|j: int| 0 <= j < i ==> v@[j] != 'T',
        decreases v.len() - i,
    {
        i += 1;
    }
    if i == v.len() {
        assert(first_index_of(s@, 'T') < 0) by {
            if first_index_of(s@, 'T') >= 0 {
                assert(v@[first_index_of(s@, 'T')] == 'T');
            }
        }
        (owned(s), owned("00:00"))
    } else {
        assert(first_index_of(s@, 'T') == i);
        let mut d = String::new();
        crate::text::push_range(&mut d, &v, 0, i);
        let mut t = String::new();
        crate::text::push_range(&mut t, &v, i + 1, v.len());
        (d, t)
    }
}

/// The extension a staged final keeps: the source's; mp4 when it has none.
pub open spec fn export_ext(rel: Seq<char>) -> Seq<char> {
    match crate::library::extension_spec(crate::library::file_name_spec(rel)) {
        Some(e) => e,
        None => "mp4"@,
    }
}

/// The staged file name of a final: "{date}_{HHMM}_{IG|TT|YT}_{code}.{ext}".
pub open spec fn staged_name_spec(
    date: Seq<char>,
    time: Seq<char>,
    platform: Seq<char>,
    code: Seq<char>,
    ext: Seq<char>,
) -> Seq<char> {
    date + "_"@ + remove_char(time, ':') + "_"@ + platform_short_spec(platform) + "_"@ + code + "."@
        + ext
}

/// The staged file name of a final.
pub fn staged_name(date: &str, time: &str, platform: &str, code: &str, ext: &str) -> (r: String)
    ensures
        r@ == staged_name_spec(date@, time@, platform@, code@, ext@),
{
    let t = without_char(time, ':');
    let mut s = String::from_str(date);
    s.append("_");
    s.append(t.as_str());
    s.append("_");
    s.append(platform_short(platform));
    s.append("_");
    s.append(code);
    s.append(".");
    s.append(ext);
    s
}

/// `part` occurs in `s` as a contiguous run.
pub open spec fn contains_run(s: Seq<char>, part: Seq<char>) -> bool {
    exists|k: int| 0 <= k && k + part.len() <= s.len() && #[trigger] s.subrange(k, k + part.len()) == part
}

/// Codes are the thread between the database and the file system: every file
/// name the library generates carries the code it belongs to — a staged final
/// its reel's code, a filed take its batch's and clip's codes, a staged clip
/// its clip key, a hand-off folder and script their reel's code.
#[verifier::rlimit(30)]
#[verifier::spinoff_prover]
pub proof fn lemma_codes_in_file_names(
    date: Seq<char>,
    time: Seq<char>,
    platform: Seq<char>,
    code: Seq<char>,
    ext: Seq<char>,
    batch_code: Seq<char>,
    clip_key: Seq<char>,
    take_number: int,
    ordinal: int,
    kind: Seq<char>,
    slug: Seq<char>,
)
    ensures
        contains_run(staged_name_spec(date, time, platform, code, ext), code),
        contains_run(crate::library::take_name_spec(batch_code, clip_key, take_number, ext), batch_code),
        contains_run(crate::library::take_name_spec(batch_code, clip_key, take_number, ext), clip_key),
        contains_run(crate::davinci::dest_name_spec(ordinal, kind, clip_key, ext), clip_key),
        contains_run(crate::davinci::reel_folder_spec(code, slug), code),
        contains_run(code + "_script.txt"@, code),
{
    let p1 = date + "_"@ + remove_char(time, ':') + "_"@ + platform_short_spec(platform) + "_"@;
    let s1 = staged_name_spec(date, time, platform, code, ext);
    assert(s1 =~= p1 + code + ("."@ + ext));
    assert(s1.subrange(p1.len() as int, (p1.len() + code.len()) as int) =~= code);
    let s2 = crate::library::take_name_spec(batch_code, clip_key, take_number, ext);
    let p2 = batch_code + "_"@;
    assert(s2 =~= batch_code + ("_"@ + clip_key + "_T"@ + crate::text::dec_int_padded(take_number, 2) + "."@ + ext));
    let z: int = 0;
    assert(s2.subrange(z, z + batch_code.len()) =~= batch_code);
    assert(s2 =~= p2 + clip_key + ("_T"@ + crate::text::dec_int_padded(take_number, 2) + "."@ + ext));
    assert(s2.subrange(p2.len() as int, (p2.len() + clip_key.len()) as int) =~= clip_key);
    let p3 = crate::text::dec_int_padded(ordinal, 2) + "_"@ + kind + "_"@;
    let s3 = crate::davinci::dest_name_spec(ordinal, kind, clip_key, ext);
    assert(s3 =~= p3 + clip_key + ("."@ + ext));
    assert(s3.subrange(p3.len() as int, (p3.len() + clip_key.len()) as int) =~= clip_key);
    let s4 = crate::davinci::reel_folder_spec(code, slug);
    assert(s4 =~= code + ("_"@ + slug));
    assert(s4.subrange(z, z + code.len()) =~= code);
    let s5 = code + "_script.txt"@;
    assert(s5.subrange(z, z + code.len()) =~= code);
}

/// A hashtag as posted: with a leading '#', added when missing.
pub open spec fn hashtag_spec(h: Seq<char>) -> Seq<char> {
    if h.len() > 0 && h[0] == '#' {
        h
    } else {
        seq!['#'] + h
    }
}

/// The post text: the caption, then a blank line and the hashtags separated
/// by spaces when there are any.
pub open spec fn caption_text_spec(caption: Seq<char>, tags: Seq<Seq<char>>) -> Seq<char> {
    if tags.len() == 0 {
        caption
    } else {
        caption + "\n\n"@ + join(tags.map_values(|h: Seq<char>| hashtag_spec(h)), " "@)
    }
}

/// The post text of a caption and its hashtags.
pub fn caption_text(caption: &str, hashtags: &[String]) -> (r: String)
    ensures
        r@ == caption_text_spec(caption@, views(hashtags@)),
{
    let ghost tags = views(hashtags@);
    let ghost tagged = tags.map_values(|h: Seq<char>| hashtag_spec(h));
    let mut s = String::from_str(caption);
    if hashtags.len() == 0 {
        return s;
    }
    s.append("\n\n");
    let ghost base = s@;
    let mut i: usize = 0;
    while i < hashtags.len()
        invariant
            i <= hashtags.len(),
            tags == views(hashtags@),
            tagged == tags.map_values(|h: Seq<char>| hashtag_spec(h)),
            s@ == base + join(tagged.take(i as int), " "@),
        decreases hashtags.len() - i,
    {
        let h = hashtags[i].as_str();
        assert(tags[i as int] == h@);
        let ghost before = tagged.take(i as int);
        if i > 0 {
            s.append(" ");
        }
        let v = chars_of(h);
        if !(v.len() > 0 && v[0] == '#') {
            push_char(&mut s, '#');
        }
        s.append(h);
        proof {
            let after = tagged.take(i + 1);
            assert(after.drop_last() =~= before);
            assert(after.last() == hashtag_spec(h@));
            if i == 0 {
                assert(join(after, " "@) == after[0]);
            }
            assert(s@ =~= base + join(after, " "@));
        }
        i += 1;
    }
    assert(tagged.take(hashtags.len() as int) =~= tagged);
    s
}

/// A CSV field: quoted, with inner quotes doubled.
pub open spec fn csv_quote_spec(s: Seq<char>) -> Seq<char> {
    seq!['"'] + escape_quotes(s) + seq!['"']
}

/// A quoted CSV field read back: the text between the outer quotes, undoubled.
pub open spec fn csv_unquote(q: Seq<char>) -> Seq<char> {
    undouble(q.subrange(1, q.len() - 1))
}

/// A caption survives the CSV: reading back the quoted field gives the text.
pub proof fn lemma_csv_roundtrip(s: Seq<char>)
    ensures
        csv_unquote(csv_quote_spec(s)) == s,
{
    let q = csv_quote_spec(s);
    assert(q.subrange(1, q.len() - 1) =~= escape_quotes(s));
    lemma_undouble_escaped(s, Seq::empty());
    assert(escape_quotes(s) + Seq::<char>::empty() =~= escape_quotes(s));
    assert(s + undouble(Seq::<char>::empty()) =~= s);
}

/// A CSV field holding `s`.
pub fn csv_quote(s: &str) -> (r: String)
    ensures
        r@ == csv_quote_spec(s@),
{
    let v = chars_of(s);
    let mut out = String::new();
    push_char(&mut out, '"');
    let mut i: usize = 0;
    while i < v.len()
        invariant
            i <= v.len(),
            v@ == s@,
            out@ == seq!['"'] + escape_quotes(s@.subrange(0, i as int)),
        decreases v.len() - i,
    {
        assert(s@.subrange(0, i + 1).drop_last() =~= s@.subrange(0, i as int));
        if v[i] == '"' {
            push_char(&mut out, '"');
            push_char(&mut out, '"');
        } else {
            push_char(&mut out, v[i]);
        }
        i += 1;
        assert(out@ =~= seq!['"'] + escape_quotes(s@.subrange(0, i as int)));
    }
    assert(s@.subrange(0, v.len() as int) =~= s@);
    push_char(&mut out, '"');
    out
}

/// "TRUE" or "FALSE".
pub open spec fn bool_text(b: bool) -> Seq<char> {
    if b {
        "TRUE"@
    } else {
        "FALSE"@
    }
}

fn bool_str(b: bool) -> (s: &'static str)
    ensures
        s@ == bool_text(b),
{
    if b {
        "TRUE"
    } else {
        "FALSE"
    }
}

/// One CSV row: text, date, time, draft flag (always FALSE), then one flag
/// per platform, set for the post's own.
pub open spec fn csv_row_spec(text: Seq<char>, date: Seq<char>, time: Seq<char>, platform: Seq<char>) -> Seq<
    char,
> {
    csv_quote_spec(text) + ","@ + date + ","@ + time + ",FALSE,"@ + bool_text(platform == "instagram"@)
        + ","@ + bool_text(platform == "tiktok"@) + ","@ + bool_text(platform == "youtube"@) + "\n"@
}

/// The platform columns of a row: a post on instagram, tiktok or youtube has
/// TRUE in exactly its own column (Instagram, TikTok, YouTube), FALSE in the
/// other two; the row starts with the quoted text, the date, the time and a
/// FALSE draft flag.
pub proof fn lemma_csv_platform_columns(text: Seq<char>, date: Seq<char>, time: Seq<char>)
    ensures
        csv_row_spec(text, date, time, "instagram"@) == csv_quote_spec(text) + ","@ + date + ","@ + time
            + ",FALSE,TRUE,FALSE,FALSE\n"@,
        csv_row_spec(text, date, time, "tiktok"@) == csv_quote_spec(text) + ","@ + date + ","@ + time
            + ",FALSE,FALSE,TRUE,FALSE\n"@,
        csv_row_spec(text, date, time, "youtube"@) == csv_quote_spec(text) + ","@ + date + ","@ + time
            + ",FALSE,FALSE,FALSE,TRUE\n"@,
{
    reveal_strlit("instagram");
    reveal_strlit("tiktok");
    reveal_strlit("youtube");
    reveal_strlit("TRUE");
    reveal_strlit("FALSE");
    reveal_strlit(",");
    reveal_strlit(",FALSE,");
    reveal_strlit("\n");
    reveal_strlit(",FALSE,TRUE,FALSE,FALSE\n");
    reveal_strlit(",FALSE,FALSE,TRUE,FALSE\n");
    reveal_strlit(",FALSE,FALSE,FALSE,TRUE\n");
    assert("instagram"@ != "tiktok"@ && "instagram"@ != "youtube"@ && "tiktok"@ != "youtube"@) by {
        assert("instagram"@.len() == 9 && "tiktok"@.len() == 6 && "youtube"@.len() == 7);
    }
    let head = csv_quote_spec(text) + ","@ + date + ","@ + time;
    assert(csv_row_spec(text, date, time, "instagram"@) =~= head + ",FALSE,TRUE,FALSE,FALSE\n"@);
    assert(csv_row_spec(text, date, time, "tiktok"@) =~= head + ",FALSE,FALSE,TRUE,FALSE\n"@);
    assert(csv_row_spec(text, date, time, "youtube"@) =~= head + ",FALSE,FALSE,FALSE,TRUE\n"@);
}

/// One CSV row of the bundle.
pub fn csv_row(text: &str, date: &str, time: &str, platform: &str) -> (r: String)
    ensures
        r@ == csv_row_spec(text@, date@, time@, platform@),
        platform@ == "instagram"@ ==> r@ == csv_quote_spec(text@) + ","@ + date@ + ","@ + time@
            + ",FALSE,TRUE,FALSE,FALSE\n"@,
        platform@ == "tiktok"@ ==> r@ == csv_quote_spec(text@) + ","@ + date@ + ","@ + time@
            + ",FALSE,FALSE,TRUE,FALSE\n"@,
        platform@ == "youtube"@ ==> r@ == csv_quote_spec(text@) + ","@ + date@ + ","@ + time@
            + ",FALSE,FALSE,FALSE,TRUE\n"@,
{
    proof {
        lemma_csv_platform_columns(text@, date@, time@);
    }
    let mut s = csv_quote(text);
    s.append(",");
    s.append(date);
    s.append(",");
    s.append(time);
    s.append(",FALSE,");
    s.append(bool_str(str_eq(platform, "instagram")));
    s.append(",");
    s.append(bool_str(str_eq(platform, "tiktok")));
    s.append(",");
    s.append(bool_str(str_eq(platform, "youtube")));
    s.append("\n");
    s
}

/// A post that can go into the bundle.
#[derive(Clone, Debug)]
pub struct ReadyExport {
    pub post_id: String,
    pub label: String,
    /// The storage root holding the reel's final.
    pub root: String,
    /// The final's path inside that root.
    pub final_rel: String,
    /// The final's name inside the bundle folder.
    pub staged_name: String,
    /// The post's CSV row.
    pub csv_row: String,
}

/// What becomes of one requested post.
#[derive(Clone, Debug)]
pub enum ExportStep {
    /// Left out, for the reason given.
    Skip(String),
    Ready(ReadyExport),
}

/// Index of the first post with this id, or -1.
pub open spec fn find_post_spec(all: Seq<PostView>, id: Seq<char>) -> int
    decreases all.len(),
{
    if all.len() == 0 {
        -1
    } else if all[0].id@ == id {
        0
    } else {
        let k = find_post_spec(all.drop_first(), id);
        if k < 0 {
            -1
        } else {
            k + 1
        }
    }
}

proof fn lemma_find_post(all: Seq<PostView>, id: Seq<char>)
    ensures
        -1 <= find_post_spec(all, id) < all.len(),
        find_post_spec(all, id) >= 0 ==> all[find_post_spec(all, id)].id@ == id,
    decreases all.len(),
{
    if all.len() > 0 && all[0].id@ != id {
        lemma_find_post(all.drop_first(), id);
    }
}

fn find_post(all: &[PostView], id: &str) -> (r: Option<usize>)
    ensures
        r matches Some(k) ==> find_post_spec(all@, id@) == k as int,
        r is None ==> find_post_spec(all@, id@) < 0,
{
    let mut i: usize = 0;
    assert(all@.skip(0) =~= all@);
    while i < all.len()
        invariant
            i <= all.len(),
            forall|j: int| 0 <= j < i ==> all@[j].id@ != id@,
            find_post_spec(all@, id@) == (if find_post_spec(all@.skip(i as int), id@) < 0 { -1 } else {
                find_post_spec(all@.skip(i as int), id@) + i
            }),
        decreases all.len() - i,
    {
        assert(all@.skip(i as int).drop_first() =~= all@.skip(i + 1));
        if str_eq(all[i].id.as_str(), id) {
            return Some(i);
        }
        i += 1;
    }
    None
}

/// The caption a post can be exported with: present and not blank.
pub open spec fn caption_ok(c: Option<String>) -> bool {
    c matches Some(x) && trim(x@).len() > 0
}

/// Decide what becomes of the requested post `id` (looked up in `all`, the
/// full board): left out when unknown, unscheduled, without caption or
/// without a final render; otherwise ready, with its staged file name and CSV
/// row. Whether the final is on disk is for the caller to check.
pub fn prepare_export(conn: &rusqlite::Connection, all: &[PostView], id: &str) -> (r: Result<ExportStep>)
    ensures
        r matches Err(e) ==> e is Sqlite,
        find_post_spec(all@, id@) < 0 ==> (r matches Ok(ExportStep::Skip(m)) && m@ == "post "@ + id@
            + " not found"@),
        find_post_spec(all@, id@) >= 0 ==> ({
            let p = all@[find_post_spec(all@, id@)];
            let label = post_label_spec(p.reel_code@, p.platform@);
            &&& p.scheduled_at is None ==> (r matches Ok(ExportStep::Skip(m)) && m@ == label
                + " — no schedule time set"@)
            &&& p.scheduled_at is Some && !caption_ok(p.caption) ==> (r matches Ok(ExportStep::Skip(m))
                && m@ == label + " — caption is empty"@)
            &&& (p.scheduled_at is Some && caption_ok(p.caption) && r is Ok && r->Ok_0 is Skip)
                ==> r->Ok_0->Skip_0@ == label + " — reel has no final render yet"@
            &&& r matches Ok(ExportStep::Ready(x)) ==> {
                let sched = split_schedule_spec(p.scheduled_at->0@);
                &&& p.scheduled_at is Some
                &&& caption_ok(p.caption)
                &&& x.post_id == p.id
                &&& x.label@ == label
                &&& x.staged_name@ == staged_name_spec(sched.0, sched.1, p.platform@, p.reel_code@, export_ext(x.final_rel@))
                &&& x.csv_row@ == csv_row_spec(
                    caption_text_spec(p.caption->0@, views(p.hashtags@)),
                    sched.0,
                    sched.1,
                    p.platform@,
                )
            }
        }),
{
    proof {
        lemma_find_post(all@, id@);
    }
    let k = match find_post(all, id) {
        Some(k) => k,
        None => return Ok(ExportStep::Skip(crate::text::concat3("post ", id, " not found"))),
    };
    let p = &all[k];
    let label = crate::text::concat3(p.reel_code.as_str(), " · ", p.platform.as_str());
    let scheduled = match &p.scheduled_at {
        Some(s) => s,
        None => return Ok(ExportStep::Skip(crate::text::concat2(label.as_str(), " — no schedule time set"))),
    };
    let caption = match &p.caption {
        Some(c) => {
            if is_blank(c.as_str()) {
                return Ok(ExportStep::Skip(crate::text::concat2(label.as_str(), " — caption is empty")));
            }
            c
        },
        None => return Ok(ExportStep::Skip(crate::text::concat2(label.as_str(), " — caption is empty"))),
    };
    let final_row = query_opt(
        conn,
        "SELECT a.root_id, a.rel_path FROM reels r JOIN assets a ON a.id = r.final_asset_id
         WHERE r.id = ?1",
        &crate::db::texts_write(&[p.reel_id.as_str()]),
    )?;
    let frow = match final_row {
        Some(f) => f,
        None => return Ok(
            ExportStep::Skip(crate::text::concat2(label.as_str(), " — reel has no final render yet")),
        ),
    };
    let a_root = col_text(&frow, 0)?;
    let a_rel = col_text(&frow, 1)?;
    let rrow = query_one(conn, "SELECT path FROM storage_roots WHERE id = ?1", &crate::db::texts_write(&[a_root.as_str()]))?;
    let root = col_text(&rrow, 0)?;
    let (date, time) = split_schedule(scheduled.as_str());
    let name = crate::library::file_name(a_rel.as_str());
    let ext = match crate::library::extension(name.as_str()) {
        Some(e) => e,
        None => owned("mp4"),
    };
    let staged = staged_name(date.as_str(), time.as_str(), p.platform.as_str(), p.reel_code.as_str(), ext.as_str());
    let body = caption_text(caption.as_str(), p.hashtags.as_slice());
    let row = csv_row(body.as_str(), date.as_str(), time.as_str(), p.platform.as_str());
    Ok(
        ExportStep::Ready(
            ReadyExport {
                post_id: p.id.clone(),
                label,
                root,
                final_rel: a_rel,
                staged_name: staged,
                csv_row: row,
            },
        ),
    )
}

/// The reason a ready post is left out when its final is not on disk.
pub fn missing_final(label: &str, final_rel: &str) -> (m: String)
    ensures
        m@ == label@ + " — final file missing on disk ("@ + final_rel@ + ")"@,
{
    let mut m = crate::text::concat3(label, " — final file missing on disk (", final_rel);
    m.append(")");
    m
}

/// The error when no requested post made it into the bundle.
pub fn nothing_exported(skipped: &[String]) -> (e: CoreError)
    ensures
        e matches CoreError::Invalid(m) && m@ == "nothing exported: "@ + join(views(skipped@), "; "@),
{
    let reasons = crate::text::join_strings(skipped, "; ");
    invalid_with("nothing exported: ", reasons.as_str())
}

/// An export bundle being put together: the CSV so far, the labels of the
/// posts exported and why each other post was left out.
pub struct BundleDraft {
    pub csv: String,
    pub exported: Vec<String>,
    pub skipped: Vec<String>,
}

impl BundleDraft {
    /// An empty bundle: the CSV header only.
    pub fn new() -> (d: Self)
        ensures
            d.csv@ == CSV_HEADER@,
            d.exported@.len() == 0,
            d.skipped@.len() == 0,
    {
        BundleDraft { csv: owned(CSV_HEADER), exported: Vec::new(), skipped: Vec::new() }
    }

    /// Leave a post out, with its reason.
    pub fn skip(&mut self, reason: String)
        ensures
            final(self).csv == old(self).csv,
            final(self).exported == old(self).exported,
            final(self).skipped@ == old(self).skipped@.push(reason),
    {
        self.skipped.push(reason);
    }

    /// Take a ready post into the bundle: its CSV row and its label.
    pub fn add(&mut self, ready: &ReadyExport)
        ensures
            final(self).csv@ == old(self).csv@ + ready.csv_row@,
            views(final(self).exported@) == views(old(self).exported@).push(ready.label@),
            final(self).skipped == old(self).skipped,
    {
        self.csv.append(ready.csv_row.as_str());
        let ghost before = self.exported@;
        self.exported.push(owned(ready.label.as_str()));
        proof {
            crate::text::lemma_views_push(before, self.exported@);
        }
    }

    /// The finished bundle in `folder` and its CSV text; an error listing the
    /// reasons when no post made it.
    pub fn finish(self, folder: String) -> (r: Result<(ExportBundle, String)>)
        ensures
            self.exported@.len() == 0 ==> (r matches Err(CoreError::Invalid(m)) && m@ == "nothing exported: "@
                + join(views(self.skipped@), "; "@)),
            self.exported@.len() > 0 ==> (r matches Ok((b, csv)) && {
                &&& b.folder@ == folder@
                &&& b.csv_path@.len() == 0
                &&& b.exported == self.exported
                &&& b.skipped == self.skipped
                &&& csv == self.csv
            }),
    {
        if self.exported.len() == 0 {
            return Err(nothing_exported(self.skipped.as_slice()));
        }
        let BundleDraft { csv, exported, skipped } = self;
        Ok((ExportBundle { folder, csv_path: String::new(), exported, skipped }, csv))
    }
}

/// Log an exported bundle of `count` posts under its time stamp.
pub fn record_bundle(conn: &rusqlite::Connection, stamp: &str, count: i64) -> (r: Result<()>)
    ensures
        r matches Err(e) ==> e is Sqlite,
{
    let detail = crate::json::json_object1("posts", crate::json::json_int(count));
    activity::log(conn, "publish", stamp, "csv-bundle-exported", Some(&detail))
}

// ── reel status sync ─────────────────────────────────────────────

/// Every status of `s` is `x`.
pub open spec fn all_are(s: Seq<Seq<char>>, x: Seq<char>) -> bool {
    forall|i: int| 0 <= i < s.len() ==> #[trigger] s[i] == x
}

/// The post has gone out (published or verified).
pub open spec fn is_out(x: Seq<char>) -> bool {
    x == "published"@ || x == "verified"@
}

/// The post is with the scheduler or further along.
pub open spec fn pushed_or_later(x: Seq<char>) -> bool {
    x == "pushed"@ || x == "scheduled"@ || x == "published"@ || x == "verified"@
}

/// The reel stage that a reel's live (not canceled) posts call for: verified
/// when all are verified, posted when any is out, scheduled when all are with
/// the scheduler or further; none otherwise or without posts.
pub open spec fn posts_stage(s: Seq<Seq<char>>) -> Option<Stage> {
    if s.len() == 0 {
        None
    } else if all_are(s, "verified"@) {
        Some(Stage::Verified)
    } else if exists|i: int| 0 <= i < s.len() && #[trigger] is_out(s[i]) {
        Some(Stage::Posted)
    } else if forall|i: int| 0 <= i < s.len() ==> #[trigger] pushed_or_later(s[i]) {
        Some(Stage::Scheduled)
    } else {
        None
    }
}

/// The stage a reel in status `current` moves to after a post status change:
/// the stage its posts call for, only when that is further along the pipeline.
/// Archived and killed reels are left alone.
pub open spec fn sync_target_spec(current: Seq<char>, s: Seq<Seq<char>>) -> Option<Stage> {
    match (status_rank(current), posts_stage(s)) {
        (Some(c), Some(t)) => if pipeline_index(t).unwrap() > c {
            Some(t)
        } else {
            None
        },
        _ => None,
    }
}

/// The stage a reel's posts call for (see `posts_stage`).
pub fn posts_stage_of(statuses: &[String]) -> (r: Option<Stage>)
    ensures
        r == posts_stage(views(statuses@)),
{
    let ghost s = views(statuses@);
    let n = statuses.len();
    if n == 0 {
        return None;
    }
    let mut all_verified = true;
    let mut any_out = false;
    let mut all_pushed = true;
    let mut i: usize = 0;
    while i < n
        invariant
            n == statuses.len(),
            s == views(statuses@),
            i <= n,
            all_verified == (forall|j: int| 0 <= j < i ==> #[trigger] s[j] == "verified"@),
            any_out == (exists|j: int| 0 <= j < i && #[trigger] is_out(s[j])),
            all_pushed == (forall|j: int| 0 <= j < i ==> #[trigger] pushed_or_later(s[j])),
        decreases n - i,
    {
        let x = statuses[i].as_str();
        assert(s[i as int] == x@);
        let v = str_eq(x, "verified");
        let out = str_eq(x, "published") || v;
        let pushed = str_eq(x, "pushed") || str_eq(x, "scheduled") || out;
        proof {
            assert(forall|j: int| 0 <= j < i + 1 ==> (#[trigger] s[j] == "verified"@ <==> (j < i
                && s[j] == "verified"@) || (j == i && v)));
        }
        all_verified = all_verified && v;
        any_out = any_out || out;
        all_pushed = all_pushed && pushed;
        proof {
            if !any_out {
                assert forall|j: int| 0 <= j < i + 1 implies !#[trigger] is_out(s[j]) by {
                    if j < i {
                    }
                }
            } else if !out {
                let w = choose|j: int| 0 <= j < i && #[trigger] is_out(s[j]);
                assert(0 <= w < i + 1 && is_out(s[w]));
            } else {
                assert(is_out(s[i as int]));
            }
            if all_pushed {
                assert forall|j: int| 0 <= j < i + 1 implies #[trigger] pushed_or_later(s[j]) by {
                    if j < i {
                    }
                }
            } else if pushed {
                let w = choose|j: int| 0 <= j < i && !#[trigger] pushed_or_later(s[j]);
                assert(!pushed_or_later(s[w]));
            } else {
                assert(!pushed_or_later(s[i as int]));
            }
        }
        i += 1;
    }
    if all_verified {
        Some(Stage::Verified)
    } else if any_out {
        Some(Stage::Posted)
    } else if all_pushed {
        Some(Stage::Scheduled)
    } else {
        None
    }
}

/// The stage a reel in status `current` moves to, given its live posts'
/// statuses (see `sync_target_spec`).
pub fn sync_target(current: &str, statuses: &[String]) -> (r: Option<Stage>)
    ensures
        r == sync_target_spec(current@, views(statuses@)),
{
    let c = match rank_of(current) {
        Some(c) => c,
        None => return None,
    };
    match posts_stage_of(statuses) {
        Some(t) => {
            let ti: u8 = match t {
                Stage::Scheduled => 7,
                Stage::Posted => 8,
                _ => 9,
            };
            if ti > c {
                Some(t)
            } else {
                None
            }
        },
        None => None,
    }
}

/// The reel status sync only ever moves a reel forward along the pipeline, to
/// scheduled, posted or verified, and never moves an archived or killed reel.
pub proof fn lemma_sync_forward_only(current: Seq<char>, statuses: Seq<Seq<char>>)
    ensures
        sync_target_spec(current, statuses) matches Some(t) ==> {
            &&& status_rank(current) is Some
            &&& pipeline_index(t) is Some
            &&& pipeline_index(t).unwrap() > status_rank(current).unwrap()
            &&& (t == Stage::Scheduled || t == Stage::Posted || t == Stage::Verified)
        },
        status_rank(current) is None ==> sync_target_spec(current, statuses) is None,
{
}

/// Once a reel has been moved to the stage its posts call for, syncing again
/// with the same posts moves it no further.
pub proof fn lemma_sync_settles(current: Seq<char>, statuses: Seq<Seq<char>>)
    ensures
        sync_target_spec(current, statuses) matches Some(t) ==> sync_target_spec(
            reels::stage_name_spec(t),
            statuses,
        ) is None,
{
    if let Some(t) = sync_target_spec(current, statuses) {
        reels::lemma_stage_name_parses(t);
    }
}

fn live_post_statuses(conn: &rusqlite::Connection, reel_id: &str) -> (r: Result<Vec<String>>)
    ensures
        r matches Err(e) ==> e is Sqlite,
{
    let rows = query(
        conn,
        "SELECT status FROM posts WHERE reel_id = ?1 AND status != 'canceled'",
        &crate::db::texts_write(&[reel_id]),
    )?;
    let mut out: Vec<String> = Vec::new();
    let mut i: usize = 0;
    while i < rows.len()
        invariant
            i <= rows.len(),
        decreases rows.len() - i,
    {
        out.push(col_text(&rows[i], 0)?);
        i += 1;
    }
    Ok(out)
}

/// The status a reel in `current` is moved to by its live posts' statuses:
/// the name of `sync_target`'s stage, or none when it stays.
pub fn sync_status(current: &str, statuses: &[String]) -> (r: Option<&'static str>)
    ensures
        r is None <==> sync_target_spec(current@, views(statuses@)) is None,
        r matches Some(n) ==> n@ == reels::stage_name_spec(sync_target_spec(current@, views(statuses@))->0),
        r matches Some(n) ==> reels::parse_stage_spec(n@) is Some,
{
    match sync_target(current, statuses) {
        Some(t) => {
            proof {
                reels::lemma_stage_name_parses(t);
            }
            Some(stage_name(t))
        },
        None => None,
    }
}

/// Forward-only reel status sync from its posts' states: the reel's stored
/// status and its live posts' statuses are read, and `sync_status` decides.
fn sync_reel(conn: &rusqlite::Connection, reel_id: &str) -> (r: Result<()>)
    ensures
        !(r matches Err(CoreError::Invalid(_))),
{
    let detail = reels::get_detail(conn, reel_id)?;
    let statuses = live_post_statuses(conn, reel_id)?;
    match sync_status(detail.status.as_str(), statuses.as_slice()) {
        Some(name) => reels::set_status(conn, reel_id, name, true),
        None => Ok(()),
    }
}

} // verus!
