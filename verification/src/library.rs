//! The media library inside a storage root: which files count as video, how a
//! file's path is recorded relative to its root, the asset index (inbox scans
//! with content de-duplication) and filing a recorded take under its batch.
//! Walking folders, hashing file contents and renaming files stay with the
//! caller, which hands this module plain paths, hashes and sizes.

use vstd::prelude::*;

use crate::batches::{self, TakeView};
use crate::db::{Param, Row, SqlValue, bool_cell, col_bool, col_int, col_opt_int, col_text, execute, int_cell, opt_int, opt_int_cell, opt_text, query, query_one, query_opt, text, text_cell};
use crate::text::{chars_of, dec_int_padded, lowercase, owned, push_char, push_int_padded, str_eq, to_lower};
use crate::{CoreError, Result, ids, not_found};

verus! {

/// Where raw footage is dropped before it is indexed.
pub const INBOX_DIR: &'static str = "00_INBOX";

/// Where recorded takes are filed, per batch.
pub const RAW_DIR: &'static str = "01_RAW";

/// One indexed file.
#[derive(Clone, Debug)]
pub struct AssetView {
    pub id: String,
    pub root_id: String,
    pub rel_path: String,
    pub filename: String,
    pub kind: String,
    pub size_bytes: i64,
    pub duration_ms: Option<i64>,
    pub width: Option<i64>,
    pub height: Option<i64>,
    pub imported_at: String,
    pub missing: bool,
}

/// The tally of one inbox scan.
#[derive(Clone, Debug)]
pub struct ScanReport {
    pub scanned: i64,
    pub added: i64,
    pub duplicates: i64,
}

// ── paths as text ────────────────────────────────────────────────

/// Index of the last `c` in `s`, or -1.
pub open spec fn last_index_of(s: Seq<char>, c: char) -> int
    decreases s.len(),
{
    if s.len() == 0 {
        -1
    } else if s.last() == c {
        s.len() - 1
    } else {
        last_index_of(s.drop_last(), c)
    }
}

/// The file name of a path written with '/' separators: the text after the
/// last '/' (the whole path when there is none).
pub open spec fn file_name_spec(path: Seq<char>) -> Seq<char> {
    path.subrange(last_index_of(path, '/') + 1, path.len() as int)
}

/// The extension of a file name as `Path::extension` gives it: the text after
/// the last '.', unless that dot opens the name (a hidden file) or there is
/// none.
pub open spec fn extension_spec(name: Seq<char>) -> Option<Seq<char>> {
    let p = last_index_of(name, '.');
    if p <= 0 {
        None
    } else {
        Some(name.subrange(p + 1, name.len() as int))
    }
}

proof fn lemma_last_index_bounds(s: Seq<char>, c: char)
    ensures
        -1 <= last_index_of(s, c) < s.len(),
        last_index_of(s, c) >= 0 ==> s[last_index_of(s, c)] == c,
    decreases s.len(),
{
    if s.len() > 0 && s.last() != c {
        lemma_last_index_bounds(s.drop_last(), c);
    }
}

fn last_index(v: &Vec<char>, c: char) -> (r: Option<usize>)
    ensures
        r matches Some(i) ==> last_index_of(v@, c) == i as int,
        r is None ==> last_index_of(v@, c) == -1,
{
    let mut k: usize = v.len();
    assert(v@.subrange(0, v.len() as int) =~= v@);
    while k > 0
        invariant
            k <= v.len(),
            last_index_of(v@, c) == last_index_of(v@.subrange(0, k as int), c),
        decreases k,
    {
        let ghost pre = v@.subrange(0, k as int);
        if v[k - 1] == c {
            return Some(k - 1);
        }
        assert(pre.drop_last() =~= v@.subrange(0, k - 1));
        k -= 1;
    }
    None
}

/// The file name of a '/'-separated path.
pub fn file_name(path: &str) -> (name: String)
    ensures
        name@ == file_name_spec(path@),
{
    let v = chars_of(path);
    proof {
        assert(v@.subrange(0, v@.len() as int) =~= v@);
        lemma_last_index_bounds(path@, '/');
    }
    let from: usize = match last_index(&v, '/') {
        Some(i) => i + 1,
        None => 0,
    };
    let mut out = String::new();
    crate::text::push_range(&mut out, &v, from, v.len());
    out
}

/// The extension of a file name, if it has one.
pub fn extension(name: &str) -> (r: Option<String>)
    ensures
        r matches Some(e) ==> extension_spec(name@) == Some(e@),
        r is None ==> extension_spec(name@) is None,
{
    let v = chars_of(name);
    proof {
        assert(v@.subrange(0, v@.len() as int) =~= v@);
        lemma_last_index_bounds(name@, '.');
    }
    match last_index(&v, '.') {
        Some(p) => {
            if p == 0 {
                None
            } else {
                let mut out = String::new();
                crate::text::push_range(&mut out, &v, p + 1, v.len());
                Some(out)
            }
        },
        None => None,
    }
}

/// The file extensions the inbox treats as video (compared in lower case).
pub open spec fn video_ext_ok(e: Seq<char>) -> bool {
    ||| e == "mp4"@
    ||| e == "mov"@
    ||| e == "mkv"@
    ||| e == "avi"@
    ||| e == "m4v"@
    ||| e == "webm"@
}

/// Whether a file counts as video: its extension, lower-cased, is one of
/// mp4, mov, mkv, avi, m4v, webm.
pub open spec fn is_video_spec(path: Seq<char>) -> bool {
    match extension_spec(file_name_spec(path)) {
        Some(e) => video_ext_ok(lowercase(e)),
        None => false,
    }
}

/// The extensions counted as video are exactly mp4, mov, mkv, avi, m4v and
/// webm, compared in lower case: a path is video exactly when its file name
/// has an extension that, lower-cased, is one of these six.
pub proof fn lemma_video_extensions(path: Seq<char>)
    ensures
        is_video_spec(path) <==> (extension_spec(file_name_spec(path)) is Some && seq![
            "mp4"@,
            "mov"@,
            "mkv"@,
            "avi"@,
            "m4v"@,
            "webm"@,
        ].contains(lowercase(extension_spec(file_name_spec(path))->0))),
{
    let exts = seq!["mp4"@, "mov"@, "mkv"@, "avi"@, "m4v"@, "webm"@];
    if let Some(e) = extension_spec(file_name_spec(path)) {
        let l = lowercase(e);
        if video_ext_ok(l) {
            if l == "mp4"@ { assert(exts[0] == l); }
            else if l == "mov"@ { assert(exts[1] == l); }
            else if l == "mkv"@ { assert(exts[2] == l); }
            else if l == "avi"@ { assert(exts[3] == l); }
            else if l == "m4v"@ { assert(exts[4] == l); }
            else { assert(exts[5] == l); }
        }
        if exts.contains(l) {
            let j = choose|j: int| 0 <= j < exts.len() && exts[j] == l;
            assert(j == 0 || j == 1 || j == 2 || j == 3 || j == 4 || j == 5);
        }
    }
}

/// Whether the file at `path` counts as video.
pub fn is_video(path: &str) -> (b: bool)
    ensures
        b == is_video_spec(path@),
        b <==> (extension_spec(file_name_spec(path@)) is Some && seq![
            "mp4"@,
            "mov"@,
            "mkv"@,
            "avi"@,
            "m4v"@,
            "webm"@,
        ].contains(lowercase(extension_spec(file_name_spec(path@))->0))),
{
    proof {
        lemma_video_extensions(path@);
    }
    let name = file_name(path);
    match extension(name.as_str()) {
        Some(e) => {
            let l = to_lower(e.as_str());
            let s = l.as_str();
            str_eq(s, "mp4") || str_eq(s, "mov") || str_eq(s, "mkv") || str_eq(s, "avi") || str_eq(
                s,
                "m4v",
            ) || str_eq(s, "webm")
        },
        None => false,
    }
}

/// `s` without its leading '/' characters.
pub open spec fn skip_slashes(s: Seq<char>) -> Seq<char>
    decreases s.len(),
{
    if s.len() > 0 && s[0] == '/' {
        skip_slashes(s.drop_first())
    } else {
        s
    }
}

/// `file` lies under the directory `root`: `root` is a non-empty prefix of it
/// that ends at a separator.
pub open spec fn under_root(root: Seq<char>, file: Seq<char>) -> bool {
    &&& root.len() > 0
    &&& root.len() <= file.len()
    &&& file.subrange(0, root.len() as int) == root
    &&& (root.len() == file.len() || file[root.len() as int] == '/' || root.last() == '/')
}

/// Backslashes written as '/'.
pub open spec fn forward_slashes(s: Seq<char>) -> Seq<char> {
    s.map_values(|c: char| if c == '\\' { '/' } else { c })
}

/// The path a file is recorded under: relative to `root` when it lies under
/// it (else the path itself), with '/' separators.
pub open spec fn rel_spec(root: Seq<char>, file: Seq<char>) -> Seq<char> {
    if under_root(root, file) {
        forward_slashes(skip_slashes(file.subrange(root.len() as int, file.len() as int)))
    } else {
        forward_slashes(file)
    }
}

proof fn lemma_skip_slashes_head(s: Seq<char>)
    ensures
        skip_slashes(s).len() > 0 ==> skip_slashes(s)[0] != '/',
        skip_slashes(s).len() <= s.len(),
        skip_slashes(s) == s.subrange(s.len() - skip_slashes(s).len(), s.len() as int),
    decreases s.len(),
{
    if s.len() > 0 && s[0] == '/' {
        lemma_skip_slashes_head(s.drop_first());
        let t = skip_slashes(s.drop_first());
        assert(s.drop_first().subrange(s.drop_first().len() - t.len(), s.drop_first().len() as int)
            =~= s.subrange(s.len() - t.len(), s.len() as int));
    } else {
        assert(s.subrange(0, s.len() as int) =~= s);
    }
}

/// The database never holds absolute paths: the path recorded for a file
/// under a root (written with '/' separators) never starts with a separator.
pub proof fn lemma_rel_is_relative(root: Seq<char>, file: Seq<char>)
    requires
        under_root(root, file),
        forall|i: int| 0 <= i < file.len() ==> file[i] != '\\',
    ensures
        rel_spec(root, file).len() > 0 ==> rel_spec(root, file)[0] != '/',
{
    let tail = file.subrange(root.len() as int, file.len() as int);
    lemma_skip_slashes_head(tail);
    let t = skip_slashes(tail);
    if t.len() > 0 {
        assert(t[0] == tail[tail.len() - t.len()]);
        assert(tail[tail.len() - t.len()] == file[root.len() + tail.len() - t.len()]);
    }
}

proof fn lemma_skip_slashes(s: Seq<char>, i: int)
    requires
        0 <= i <= s.len(),
        forall|j: int| 0 <= j < i ==> s[j] == '/',
    ensures
        skip_slashes(s) == skip_slashes(s.subrange(i, s.len() as int)),
    decreases i,
{
    if i > 0 {
        assert(s.drop_first().subrange(i - 1, s.drop_first().len() as int) =~= s.subrange(
            i,
            s.len() as int,
        ));
        lemma_skip_slashes(s.drop_first(), i - 1);
    } else {
        assert(s.subrange(0, s.len() as int) =~= s);
    }
}

/// The path of `file` relative to `root`, with '/' separators.
#[verifier::rlimit(40)]
#[verifier::spinoff_prover]
pub fn rel(root: &str, file: &str) -> (r: String)
    ensures
        r@ == rel_spec(root@, file@),
{
    let rv = chars_of(root);
    let fv = chars_of(file);
    let mut under = rv.len() > 0 && rv.len() <= fv.len();
    if under {
        let mut i: usize = 0;
        while i < rv.len() && rv[i] == fv[i]
            invariant
                rv@ == root@,
                fv@ == file@,
                rv.len() <= fv.len(),
                i <= rv.len(),
                forall|j: int| 0 <= j < i ==> rv@[j] == fv@[j],
            decreases rv.len() - i,
        {
            i += 1;
        }
        if i < rv.len() {
            under = false;
            assert(file@.subrange(0, root@.len() as int)[i as int] == fv@[i as int]);
            assert(file@.subrange(0, root@.len() as int)[i as int] != root@[i as int]);
        } else {
            assert(file@.subrange(0, root@.len() as int) =~= root@);
            under = rv.len() == fv.len() || fv[rv.len()] == '/' || rv[rv.len() - 1] == '/';
        }
    }
    let mut from: usize = 0;
    if under {
        from = rv.len();
        while from < fv.len() && fv[from] == '/'
            invariant
                rv.len() <= from <= fv.len(),
                fv@ == file@,
                forall|j: int| rv.len() <= j < from ==> fv@[j] == '/',
            decreases fv.len() - from,
        {
            from += 1;
        }
        proof {
            let tail = file@.subrange(rv.len() as int, file@.len() as int);
            assert forall|j: int| 0 <= j < from - rv.len() implies tail[j] == '/' by {
                assert(tail[j] == fv@[rv.len() + j]);
            }
            lemma_skip_slashes(tail, from - rv.len());
            assert(tail.subrange(from - rv.len(), tail.len() as int) =~= file@.subrange(
                from as int,
                file@.len() as int,
            ));
            let rest = file@.subrange(from as int, file@.len() as int);
            if rest.len() > 0 {
                assert(rest[0] == fv@[from as int]);
            }
        }
    }
    let ghost start = file@.subrange(from as int, file@.len() as int);
    proof {
        if !under {
            assert(start =~= file@);
        }
    }
    let mut out = String::new();
    let mut k: usize = from;
    while k < fv.len()
        invariant
            from <= k <= fv.len(),
            fv@ == file@,
            start == file@.subrange(from as int, file@.len() as int),
            out@ == forward_slashes(start.subrange(0, k - from)),
        decreases fv.len() - k,
    {
        let c = fv[k];
        push_char(&mut out, if c == '\\' { '/' } else { c });
        k += 1;
        assert(out@ =~= forward_slashes(start.subrange(0, k - from)));
    }
    assert(start.subrange(0, k - from) =~= start);
    out
}

// ── the asset index ──────────────────────────────────────────────

/// The folder of a registered root.
pub fn root_path(conn: &rusqlite::Connection, root_id: &str) -> (r: Result<String>)
    ensures
        !(r matches Err(CoreError::Invalid(_))),
        r matches Err(CoreError::NotFound(m)) ==> m@ == "storage root "@ + root_id@,
{
    match query_opt(conn, "SELECT path FROM storage_roots WHERE id = ?1", &crate::db::texts_write(&[root_id]))? {
        Some(row) => col_text(&row, 0),
        None => Err(not_found("storage root ", root_id)),
    }
}

impl ScanReport {
    /// An empty tally.
    pub fn new() -> (r: ScanReport)
        ensures
            r.scanned == 0 && r.added == 0 && r.duplicates == 0,
    {
        ScanReport { scanned: 0, added: 0, duplicates: 0 }
    }

    /// Count one video file seen by the scan.
    pub fn count_scanned(&mut self)
        requires
            old(self).scanned < 0x7fff_ffff_ffff_ffff,
        ensures
            final(self).scanned == old(self).scanned + 1,
            final(self).added == old(self).added,
            final(self).duplicates == old(self).duplicates,
    {
        self.scanned = self.scanned + 1;
    }
}

/// Whether a file of this root is already indexed under `rel_path`.
pub fn is_indexed(conn: &rusqlite::Connection, root_id: &str, rel_path: &str) -> (r: Result<bool>)
    ensures
        r matches Err(e) ==> e is Sqlite,
{
    let row = query_one(
        conn,
        "SELECT EXISTS(SELECT 1 FROM assets WHERE root_id = ?1 AND rel_path = ?2)",
        &crate::db::texts_write(&[root_id, rel_path]),
    )?;
    col_bool(&row, 0)
}

/// Whether content with this hash is already indexed (and not missing); a
/// duplicate is counted in the report.
pub fn check_duplicate(conn: &rusqlite::Connection, report: &mut ScanReport, hash: &str) -> (r: Result<
    bool,
>)
    requires
        old(report).duplicates < 0x7fff_ffff_ffff_ffff,
    ensures
        r matches Err(e) ==> e is Sqlite,
        final(report).scanned == old(report).scanned,
        final(report).added == old(report).added,
        final(report).duplicates == old(report).duplicates + (if r matches Ok(true) { 1int } else { 0 }),
{
    let row = query_one(
        conn,
        "SELECT EXISTS(SELECT 1 FROM assets WHERE blake3 = ?1 AND missing = 0)",
        &crate::db::texts_write(&[hash]),
    )?;
    let dupe = col_bool(&row, 0)?;
    if dupe {
        report.duplicates = report.duplicates + 1;
    }
    Ok(dupe)
}

/// Index a new raw file of this root, counted in the report.
/// The parameters of a new raw asset row: id, root, path, file name, size,
/// content hash and the time it was indexed.
pub fn raw_asset_write(
    id: String,
    root_id: &str,
    rel_path: &str,
    filename: &str,
    size_bytes: i64,
    hash: &str,
    now: String,
) -> (p: Vec<Param>)
    ensures
        crate::db::params_view(p@) == seq![
            crate::db::ParamView::Text(id@),
            crate::db::ParamView::Text(root_id@),
            crate::db::ParamView::Text(rel_path@),
            crate::db::ParamView::Text(filename@),
            crate::db::ParamView::Int(size_bytes),
            crate::db::ParamView::Text(hash@),
            crate::db::ParamView::Text(now@),
        ],
{
    let ghost (i, n) = (id@, now@);
    let p = vec![Param::Text(id), text(root_id), text(rel_path), text(filename), Param::Int(size_bytes), text(hash), Param::Text(now)];
    assert(crate::db::params_view(p@) =~= seq![
        crate::db::ParamView::Text(i),
        crate::db::ParamView::Text(root_id@),
        crate::db::ParamView::Text(rel_path@),
        crate::db::ParamView::Text(filename@),
        crate::db::ParamView::Int(size_bytes),
        crate::db::ParamView::Text(hash@),
        crate::db::ParamView::Text(n),
    ]);
    p
}

pub fn register_raw(
    conn: &rusqlite::Connection,
    report: &mut ScanReport,
    root_id: &str,
    rel_path: &str,
    filename: &str,
    size_bytes: i64,
    hash: &str,
) -> (r: Result<()>)
    requires
        old(report).added < 0x7fff_ffff_ffff_ffff,
    ensures
        r matches Err(e) ==> e is Sqlite,
        final(report).scanned == old(report).scanned,
        final(report).duplicates == old(report).duplicates,
        final(report).added == old(report).added + (if r is Ok { 1int } else { 0 }),
{
    execute(
        conn,
        "INSERT INTO assets (id, root_id, rel_path, filename, kind, size_bytes, blake3, imported_at)
         VALUES (?1, ?2, ?3, ?4, 'raw', ?5, ?6, ?7)",
        &raw_asset_write(ids::new_id(), root_id, rel_path, filename, size_bytes, hash, ids::now_iso()),
    )?;
    report.added = report.added + 1;
    Ok(())
}

/// A row decodes as an indexed file: every column has the expected type.
pub open spec fn asset_row_ok(row: Seq<SqlValue>) -> bool {
    &&& text_cell(row, 0) is Some
    &&& text_cell(row, 1) is Some
    &&& text_cell(row, 2) is Some
    &&& text_cell(row, 3) is Some
    &&& text_cell(row, 4) is Some
    &&& int_cell(row, 5) is Some
    &&& opt_int_cell(row, 6) is Some
    &&& opt_int_cell(row, 7) is Some
    &&& opt_int_cell(row, 8) is Some
    &&& text_cell(row, 9) is Some
    &&& bool_cell(row, 10) is Some
}

/// `x` is an indexed file decoded from `row`, column by column.
pub open spec fn asset_of_row(x: AssetView, row: Seq<SqlValue>) -> bool {
    &&& text_cell(row, 0) == Some(x.id@)
    &&& text_cell(row, 1) == Some(x.root_id@)
    &&& text_cell(row, 2) == Some(x.rel_path@)
    &&& text_cell(row, 3) == Some(x.filename@)
    &&& text_cell(row, 4) == Some(x.kind@)
    &&& int_cell(row, 5) == Some(x.size_bytes)
    &&& opt_int_cell(row, 6) == Some(x.duration_ms)
    &&& opt_int_cell(row, 7) == Some(x.width)
    &&& opt_int_cell(row, 8) == Some(x.height)
    &&& text_cell(row, 9) == Some(x.imported_at@)
    &&& bool_cell(row, 10) == Some(x.missing)
}

/// `x` was decoded from some row.
pub open spec fn asset_decoded(x: AssetView) -> bool {
    exists|row: Seq<SqlValue>| asset_of_row(x, row)
}

/// Decode an indexed file from a result row.
pub fn row_to_asset(r: &Row) -> (a: Result<AssetView>)
    ensures
        a matches Err(e) ==> e is Sqlite,
        a is Ok <==> asset_row_ok(r@),
        a matches Ok(x) ==> asset_of_row(x, r@),
{
    Ok(AssetView {
        id: col_text(r, 0)?,
        root_id: col_text(r, 1)?,
        rel_path: col_text(r, 2)?,
        filename: col_text(r, 3)?,
        kind: col_text(r, 4)?,
        size_bytes: col_int(r, 5)?,
        duration_ms: col_opt_int(r, 6)?,
        width: col_opt_int(r, 7)?,
        height: col_opt_int(r, 8)?,
        imported_at: col_text(r, 9)?,
        missing: col_bool(r, 10)?,
    })
}

fn assets_of(rows: &Vec<Row>) -> (r: Result<Vec<AssetView>>)
    ensures
        r matches Ok(v) ==> forall|k: int| 0 <= k < v.len() ==> asset_decoded(#[trigger] v@[k]),
        r matches Err(e) ==> e is Sqlite,
        r matches Ok(v) ==> v.len() == rows.len(),
{
    let mut out: Vec<AssetView> = Vec::new();
    let mut i: usize = 0;
    while i < rows.len()
        invariant
            i <= rows.len(),
            forall|k: int| 0 <= k < out.len() ==> asset_decoded(#[trigger] out@[k]),
            out.len() == i,
        decreases rows.len() - i,
    {
        let x = row_to_asset(&rows[i])?;
        assert(asset_of_row(x, rows@[i as int]@));
        out.push(x);
        i += 1;
    }
    Ok(out)
}

/// Inbox files of a root not yet filed as a take, oldest first.
pub fn list_inbox(conn: &rusqlite::Connection, root_id: &str) -> (r: Result<Vec<AssetView>>)
    ensures
        r matches Ok(v) ==> forall|k: int| 0 <= k < v.len() ==> asset_decoded(#[trigger] v@[k]),
        r matches Err(e) ==> e is Sqlite,
{
    let rows = query(
        conn,
        "SELECT id, root_id, rel_path, filename, kind, size_bytes, duration_ms, width, height, imported_at, missing
         FROM assets
         WHERE root_id = ?1 AND rel_path LIKE '00_INBOX/%'
           AND id NOT IN (SELECT asset_id FROM takes)
         ORDER BY imported_at, filename",
        &crate::db::texts_write(&[root_id]),
    )?;
    assets_of(&rows)
}

/// Every indexed file, only those of `kind` when given, newest first.
pub fn list_assets(conn: &rusqlite::Connection, kind: Option<&str>) -> (r: Result<Vec<AssetView>>)
    ensures
        r matches Ok(v) ==> forall|k: int| 0 <= k < v.len() ==> asset_decoded(#[trigger] v@[k]),
        r matches Err(e) ==> e is Sqlite,
{
    let rows = query(
        conn,
        "SELECT id, root_id, rel_path, filename, kind, size_bytes, duration_ms, width, height, imported_at, missing
         FROM assets WHERE (?1 IS NULL OR kind = ?1) ORDER BY imported_at DESC",
        &vec![opt_text(kind)],
    )?;
    assets_of(&rows)
}

// ── filing takes ─────────────────────────────────────────────────

/// Where and under what name a recorded file is filed as a take.
#[derive(Clone, Debug)]
pub struct TakePlan {
    pub batch_code: String,
    pub clip_key: String,
    /// The storage root's folder.
    pub root: String,
    /// The file's current path inside the root.
    pub src_rel: String,
    pub take_number: i64,
    /// `{batch}_{clip_key}_T{nn}.{ext}`.
    pub new_name: String,
    /// The batch's folder inside the root: `01_RAW/{batch}`.
    pub dest_dir_rel: String,
    /// The take's new path inside the root.
    pub new_rel: String,
}

/// The extension a filed take keeps: the source's, lower-cased; mp4 when it
/// has none.
pub open spec fn take_ext(src_rel: Seq<char>) -> Seq<char> {
    match extension_spec(file_name_spec(src_rel)) {
        Some(e) => lowercase(e),
        None => "mp4"@,
    }
}

/// The file name of take `n` of a shot: `{batch}_{clip_key}_T{nn}.{ext}`.
pub open spec fn take_name_spec(batch_code: Seq<char>, clip_key: Seq<char>, n: int, ext: Seq<char>) -> Seq<char> {
    batch_code + "_"@ + clip_key + "_T"@ + dec_int_padded(n, 2) + "."@ + ext
}

/// The file name of take `n` of a shot.
pub fn take_name(batch_code: &str, clip_key: &str, n: i64, ext: &str) -> (name: String)
    ensures
        name@ == take_name_spec(batch_code@, clip_key@, n as int, ext@),
{
    let mut s = String::from_str(batch_code);
    s.append("_");
    s.append(clip_key);
    s.append("_T");
    push_int_padded(&mut s, n as i128, 2);
    s.append(".");
    s.append(ext);
    s
}

fn find_clip_key(detail: &batches::BatchDetail, shot_id: &str) -> (r: Option<String>)
    ensures
        r matches Some(k) ==> exists|i: int|
            #![trigger detail.shots@[i]]
            0 <= i < detail.shots.len() && (forall|j: int| 0 <= j < i ==> #[trigger] detail.shots@[j].id@ != shot_id@)
                && detail.shots@[i].id@ == shot_id@ && k@ == detail.shots@[i].clip_key@,
        r is None ==> forall|j: int| 0 <= j < detail.shots.len() ==> #[trigger] detail.shots@[j].id@ != shot_id@,
{
    let mut i: usize = 0;
    while i < detail.shots.len()
        invariant
            i <= detail.shots.len(),
            forall|j: int| 0 <= j < i ==> #[trigger] detail.shots@[j].id@ != shot_id@,
        decreases detail.shots.len() - i,
    {
        if str_eq(detail.shots[i].id.as_str(), shot_id) {
            return Some(owned(detail.shots[i].clip_key.as_str()));
        }
        i += 1;
    }
    None
}

/// The highest of a shot's take numbers (0 when it has none).
pub open spec fn max_take(nums: Seq<i64>) -> int
    decreases nums.len(),
{
    if nums.len() == 0 {
        0
    } else if nums.len() == 1 {
        nums[0] as int
    } else {
        let m = max_take(nums.drop_last());
        if nums.last() > m {
            nums.last() as int
        } else {
            m
        }
    }
}

/// The next take number of a shot with take numbers `nums`: the highest plus
/// 1; `None` when that does not fit an `i64`.
pub fn next_take_number(nums: &Vec<i64>) -> (r: Option<i64>)
    ensures
        r matches Some(n) ==> n == max_take(nums@) + 1,
        r is None ==> max_take(nums@) + 1 > i64::MAX,
{
    let mut m: i64 = 0;
    let mut i: usize = 0;
    while i < nums.len()
        invariant
            i <= nums.len(),
            m == max_take(nums@.take(i as int)),
        decreases nums.len() - i,
    {
        proof {
            assert(nums@.take(i + 1).drop_last() =~= nums@.take(i as int));
        }
        if i == 0 || nums[i] > m {
            m = nums[i];
        }
        i += 1;
    }
    assert(nums@.take(nums.len() as int) =~= nums@);
    if m == i64::MAX {
        None
    } else {
        Some(m + 1)
    }
}

/// The plan of a take from what was looked up: the batch's code, the shot's
/// clip key, the storage root's folder, the file's path and the take number.
pub fn take_plan(batch_code: String, clip_key: String, root: String, src_rel: String, take_number: i64) -> (p: TakePlan)
    ensures
        p.batch_code == batch_code,
        p.clip_key == clip_key,
        p.root == root,
        p.src_rel == src_rel,
        p.take_number == take_number,
        p.new_name@ == take_name_spec(batch_code@, clip_key@, take_number as int, take_ext(src_rel@)),
        p.dest_dir_rel@ == RAW_DIR@ + "/"@ + batch_code@,
        p.new_rel@ == p.dest_dir_rel@ + "/"@ + p.new_name@,
{
    let name = file_name(src_rel.as_str());
    let ext = match extension(name.as_str()) {
        Some(e) => to_lower(e.as_str()),
        None => owned("mp4"),
    };
    let new_name = take_name(batch_code.as_str(), clip_key.as_str(), take_number, ext.as_str());
    let mut dest_dir_rel = String::from_str(RAW_DIR);
    dest_dir_rel.append("/");
    dest_dir_rel.append(batch_code.as_str());
    let mut new_rel = String::from_str(dest_dir_rel.as_str());
    new_rel.append("/");
    new_rel.append(new_name.as_str());
    TakePlan { batch_code, clip_key, root, src_rel, take_number, new_name, dest_dir_rel, new_rel }
}

/// The first shot of `shots` with id `shot_id` has clip key `key`.
pub open spec fn clip_key_in(shots: Seq<batches::ShotView>, shot_id: Seq<char>, key: Seq<char>) -> bool {
    exists|i: int|
        #![trigger shots[i]]
        0 <= i < shots.len() && (forall|j: int| 0 <= j < i ==> #[trigger] shots[j].id@ != shot_id) && shots[i].id@
            == shot_id && key == shots[i].clip_key@
}

/// `p` is planned from what was looked up for shot `shot_id`: the batch code
/// of its batch row, the clip key of the shot in the batch's shot list, the
/// next take number after the shot's take numbers, and the file's path in its
/// asset row.
pub open spec fn plan_from_lookups(
    shot_id: Seq<char>,
    head: Seq<SqlValue>,
    shots: Seq<batches::ShotView>,
    nums: Seq<i64>,
    arow: Seq<SqlValue>,
    p: TakePlan,
) -> bool {
    &&& text_cell(head, 1) == Some(p.batch_code@)
    &&& clip_key_in(shots, shot_id, p.clip_key@)
    &&& p.take_number == max_take(nums) + 1
    &&& text_cell(arow, 1) == Some(p.src_rel@)
}

/// `p` is planned from some lookups for shot `shot_id` (see
/// `plan_from_lookups`).
pub open spec fn planned_from_lookups(shot_id: Seq<char>, p: TakePlan) -> bool {
    exists|head: Seq<SqlValue>, shots: Seq<batches::ShotView>, nums: Seq<i64>, arow: Seq<SqlValue>|
        #[trigger] plan_from_lookups(shot_id, head, shots, nums, arow, p)
}

/// Work out where a recorded inbox file is filed as the next take of a shot:
/// the shot's batch code (from the shot's batch row), its clip key (from the
/// batch's shot list), the file's path (from the asset row) and the next take
/// number after the shot's takes, put together by `take_plan`.
pub fn plan_take(conn: &rusqlite::Connection, shot_id: &str, asset_id: &str) -> (r: Result<TakePlan>)
    ensures
        r matches Err(CoreError::NotFound(m)) ==> (m@ == "shot "@ + shot_id@ || m@ == "asset "@
            + asset_id@ || (exists|x: Seq<char>| m@ == "batch "@ + x) || (exists|x: Seq<char>| m@
            == "storage root "@ + x)),
        r matches Err(CoreError::Invalid(m)) ==> m@ == "too many takes for this shot"@,
        r matches Ok(p) ==> {
            &&& p.new_name@ == take_name_spec(p.batch_code@, p.clip_key@, p.take_number as int, take_ext(p.src_rel@))
            &&& p.dest_dir_rel@ == RAW_DIR@ + "/"@ + p.batch_code@
            &&& p.new_rel@ == p.dest_dir_rel@ + "/"@ + p.new_name@
        },
        r matches Ok(p) ==> planned_from_lookups(shot_id@, p),
{
    let head = match query_opt(
        conn,
        "SELECT b.id, b.code FROM shots s JOIN shoot_batches b ON b.id = s.batch_id WHERE s.id = ?1",
        &crate::db::texts_write(&[shot_id]),
    )? {
        Some(h) => h,
        None => return Err(not_found("shot ", shot_id)),
    };
    let batch_id = col_text(&head, 0)?;
    let batch_code = col_text(&head, 1)?;
    let batch = batches::detail(conn, batch_id.as_str())?;
    let clip_key = match find_clip_key(&batch, shot_id) {
        Some(k) => k,
        None => return Err(not_found("shot ", shot_id)),
    };
    let arow = match query_opt(
        conn,
        "SELECT root_id, rel_path FROM assets WHERE id = ?1",
        &crate::db::texts_write(&[asset_id]),
    )? {
        Some(a) => a,
        None => return Err(not_found("asset ", asset_id)),
    };
    let root_id = col_text(&arow, 0)?;
    let src_rel = col_text(&arow, 1)?;
    let nrows = query(conn, "SELECT take_number FROM takes WHERE shot_id = ?1", &crate::db::texts_write(&[shot_id]))?;
    let nums = crate::order::int_keys(&nrows, 0)?;
    let take_number = match next_take_number(&nums) {
        Some(n) => n,
        None => return Err(crate::invalid("too many takes for this shot")),
    };
    let root = root_path(conn, root_id.as_str())?;
    let ghost hv = head@;
    let ghost av = arow@;
    let p = take_plan(batch_code, clip_key, root, src_rel, take_number);
    proof {
        assert(clip_key_in(batch.shots@, shot_id@, p.clip_key@));
        assert(text_cell(hv, 1) == Some(p.batch_code@));
        assert(text_cell(av, 1) == Some(p.src_rel@));
        assert(p.take_number == max_take(nums@) + 1);
        assert(plan_from_lookups(shot_id@, hv, batch.shots@, nums@, av, p));
        assert(planned_from_lookups(shot_id@, p));
    }
    Ok(p)
}

/// The refusal to file a take over an existing file.
pub fn take_exists(new_name: &str) -> (e: CoreError)
    ensures
        e matches CoreError::Invalid(m) && m@ == new_name@ + " already exists"@,
{
    let mut m = String::from_str(new_name);
    m.append(" already exists");
    CoreError::Invalid(m)
}

/// The parameters that move an asset to its filed place: the plan's new path
/// and name, then the asset id.
pub fn filed_asset_write(plan: &TakePlan, asset_id: &str) -> (p: Vec<Param>)
    ensures
        crate::db::params_view(p@) == seq![
            crate::db::ParamView::Text(plan.new_rel@),
            crate::db::ParamView::Text(plan.new_name@),
            crate::db::ParamView::Text(asset_id@),
        ],
{
    let p = vec![text(plan.new_rel.as_str()), text(plan.new_name.as_str()), text(asset_id)];
    assert(crate::db::params_view(p@) =~= seq![
        crate::db::ParamView::Text(plan.new_rel@),
        crate::db::ParamView::Text(plan.new_name@),
        crate::db::ParamView::Text(asset_id@),
    ]);
    p
}

/// The parameters of a new take row: id, shot, asset, take number, rating.
pub fn take_insert_write(take_id: &str, shot_id: &str, asset_id: &str, take_number: i64, rating: Option<i64>) -> (p: Vec<Param>)
    ensures
        crate::db::params_view(p@) == seq![
            crate::db::ParamView::Text(take_id@),
            crate::db::ParamView::Text(shot_id@),
            crate::db::ParamView::Text(asset_id@),
            crate::db::ParamView::Int(take_number),
            crate::db::opt_int_view(rating),
        ],
{
    let p = vec![text(take_id), text(shot_id), text(asset_id), Param::Int(take_number), opt_int(rating)];
    assert(crate::db::params_view(p@) =~= seq![
        crate::db::ParamView::Text(take_id@),
        crate::db::ParamView::Text(shot_id@),
        crate::db::ParamView::Text(asset_id@),
        crate::db::ParamView::Int(take_number),
        crate::db::opt_int_view(rating),
    ]);
    p
}

/// Record a filed take: the asset's new path and name, the take itself
/// (unrated unless `rating` is given, not selected), and the shot as recorded.
pub fn record_take(
    conn: &rusqlite::Connection,
    plan: &TakePlan,
    shot_id: &str,
    asset_id: &str,
    rating: Option<i64>,
) -> (r: Result<TakeView>)
    ensures
        !batches::rating_ok(rating) ==> (r matches Err(CoreError::Invalid(m)) && m@ == "rating must be 1–5"@),
        r matches Err(CoreError::Invalid(_)) ==> !batches::rating_ok(rating),
        r matches Ok(t) ==> {
            &&& t.take_number == plan.take_number
            &&& t.asset_id@ == asset_id@
            &&& t.filename == plan.new_name
            &&& t.rating == rating
            &&& !t.selected
        },
{
    batches::check_rating(rating)?;
    execute(
        conn,
        "UPDATE assets SET rel_path = ?1, filename = ?2 WHERE id = ?3",
        &filed_asset_write(plan, asset_id),
    )?;
    let take_id = ids::new_id();
    execute(
        conn,
        "INSERT INTO takes (id, shot_id, asset_id, take_number, rating) VALUES (?1, ?2, ?3, ?4, ?5)",
        &take_insert_write(take_id.as_str(), shot_id, asset_id, plan.take_number, rating),
    )?;
    proof {
        reveal_strlit("recorded");
    }
    batches::set_shot_status(conn, shot_id, "recorded")?;
    Ok(TakeView {
        id: take_id,
        take_number: plan.take_number,
        asset_id: owned(asset_id),
        filename: plan.new_name.clone(),
        rating,
        selected: false,
    })
}

} // verus!
