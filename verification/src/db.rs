//! The SQLite store: schema, opening, and the few calls into rusqlite that
//! every module goes through (statements and queries over plain values).

use vstd::prelude::*;

use crate::text::owned;
use crate::{CoreError, Result};

verus! {

/// rusqlite's connection, carried opaquely: what it holds is the database.
#[verifier::external_type_specification]
#[verifier::external_body]
pub struct ExConnection(rusqlite::Connection);

/// One SQLite value as the library reads it. A REAL is carried by its
/// IEEE-754 bit pattern.
#[derive(Clone, Debug)]
pub enum SqlValue {
    Null,
    Int(i64),
    Real(u64),
    Text(String),
    Blob(Vec<u8>),
}

/// One bound statement parameter.
#[derive(Clone, Debug)]
pub enum Param {
    Null,
    Int(i64),
    Text(String),
}

/// One result row.
pub type Row = Vec<SqlValue>;

/// A statement parameter as a plain value.
pub enum ParamView {
    Null,
    Int(i64),
    Text(Seq<char>),
}

/// The plain value of a parameter.
pub open spec fn param_view(p: Param) -> ParamView {
    match p {
        Param::Null => ParamView::Null,
        Param::Int(i) => ParamView::Int(i),
        Param::Text(s) => ParamView::Text(s@),
    }
}

/// The plain values of a parameter list.
pub open spec fn params_view(ps: Seq<Param>) -> Seq<ParamView> {
    ps.map_values(|p: Param| param_view(p))
}

/// The plain value of an optional text parameter.
pub open spec fn opt_text_view(o: Option<Seq<char>>) -> ParamView {
    match o {
        Some(s) => ParamView::Text(s),
        None => ParamView::Null,
    }
}

/// The plain value of an optional integer parameter.
pub open spec fn opt_int_view(o: Option<i64>) -> ParamView {
    match o {
        Some(i) => ParamView::Int(i),
        None => ParamView::Null,
    }
}

/// An open database.
pub struct Db {
    pub conn: rusqlite::Connection,
}

/// The full schema, applied when a database is opened (idempotent).
pub const SCHEMA: &'static str = "
PRAGMA journal_mode = WAL;
PRAGMA foreign_keys = ON;

CREATE TABLE IF NOT EXISTS settings (
  key   TEXT PRIMARY KEY,
  value TEXT NOT NULL
);

CREATE TABLE IF NOT EXISTS counters (
  name  TEXT PRIMARY KEY,
  value INTEGER NOT NULL
);

CREATE TABLE IF NOT EXISTS storage_roots (
  id         TEXT PRIMARY KEY,
  name       TEXT NOT NULL UNIQUE,
  path       TEXT NOT NULL,
  kind       TEXT NOT NULL CHECK (kind IN ('local','nas')),
  online     INTEGER NOT NULL DEFAULT 1,
  created_at TEXT NOT NULL
);

CREATE TABLE IF NOT EXISTS pillars (
  id              TEXT PRIMARY KEY,
  name            TEXT NOT NULL UNIQUE,
  color           TEXT NOT NULL,
  description     TEXT,
  target_per_week INTEGER NOT NULL DEFAULT 0,
  sort_order      INTEGER NOT NULL DEFAULT 0,
  archived        INTEGER NOT NULL DEFAULT 0
);

CREATE TABLE IF NOT EXISTS ideas (
  id         TEXT PRIMARY KEY,
  title      TEXT NOT NULL,
  notes      TEXT,
  pillar_id  TEXT REFERENCES pillars(id),
  status     TEXT NOT NULL DEFAULT 'open'
             CHECK (status IN ('open','promoted','killed')),
  reel_id    TEXT REFERENCES reels(id),
  created_at TEXT NOT NULL
);

CREATE TABLE IF NOT EXISTS reels (
  id             TEXT PRIMARY KEY,
  code           TEXT NOT NULL UNIQUE,
  title          TEXT NOT NULL,
  slug           TEXT NOT NULL,
  pillar_id      TEXT REFERENCES pillars(id),
  status         TEXT NOT NULL DEFAULT 'idea' CHECK (status IN
                 ('idea','scripted','shotlisted','shot','assembled',
                  'editing','edited','scheduled','posted','verified',
                  'archived','killed')),
  notes          TEXT,
  target_date    TEXT,
  final_asset_id TEXT REFERENCES assets(id),
  created_at     TEXT NOT NULL,
  updated_at     TEXT NOT NULL
);
CREATE INDEX IF NOT EXISTS idx_reels_status ON reels(status);
CREATE INDEX IF NOT EXISTS idx_reels_target ON reels(target_date);

CREATE TABLE IF NOT EXISTS components (
  id             TEXT PRIMARY KEY,
  code           TEXT NOT NULL UNIQUE,
  kind           TEXT NOT NULL CHECK (kind IN ('hook','body','cta')),
  text           TEXT NOT NULL,
  tags           TEXT,
  pillar_id      TEXT REFERENCES pillars(id),
  master_take_id TEXT REFERENCES takes(id),
  archived       INTEGER NOT NULL DEFAULT 0,
  created_at     TEXT NOT NULL
);

CREATE TABLE IF NOT EXISTS script_blocks (
  id           TEXT PRIMARY KEY,
  reel_id      TEXT NOT NULL REFERENCES reels(id) ON DELETE CASCADE,
  position     INTEGER NOT NULL,
  kind         TEXT NOT NULL CHECK (kind IN ('hook','body','cta','segment')),
  component_id TEXT REFERENCES components(id),
  text         TEXT,
  est_seconds  INTEGER,
  CHECK (component_id IS NOT NULL OR text IS NOT NULL),
  UNIQUE (reel_id, position)
);

CREATE TABLE IF NOT EXISTS shoot_batches (
  id         TEXT PRIMARY KEY,
  code       TEXT NOT NULL UNIQUE,
  name       TEXT NOT NULL,
  shoot_date TEXT,
  status     TEXT NOT NULL DEFAULT 'planning'
             CHECK (status IN ('planning','ready','shooting','done')),
  notes      TEXT,
  created_at TEXT NOT NULL
);

CREATE TABLE IF NOT EXISTS shots (
  id               TEXT PRIMARY KEY,
  batch_id         TEXT NOT NULL REFERENCES shoot_batches(id) ON DELETE CASCADE,
  position         INTEGER NOT NULL,
  component_id     TEXT REFERENCES components(id),
  script_block_id  TEXT REFERENCES script_blocks(id),
  setup_tags       TEXT,
  status           TEXT NOT NULL DEFAULT 'pending'
                   CHECK (status IN ('pending','recorded','skipped')),
  selected_take_id TEXT REFERENCES takes(id),
  CHECK (component_id IS NOT NULL OR script_block_id IS NOT NULL)
);
CREATE INDEX IF NOT EXISTS idx_shots_batch ON shots(batch_id, position);

CREATE TABLE IF NOT EXISTS takes (
  id          TEXT PRIMARY KEY,
  shot_id     TEXT NOT NULL REFERENCES shots(id) ON DELETE CASCADE,
  asset_id    TEXT NOT NULL REFERENCES assets(id),
  take_number INTEGER NOT NULL,
  rating      INTEGER,
  notes       TEXT
);

CREATE TABLE IF NOT EXISTS assets (
  id          TEXT PRIMARY KEY,
  root_id     TEXT NOT NULL REFERENCES storage_roots(id),
  rel_path    TEXT NOT NULL,
  filename    TEXT NOT NULL,
  kind        TEXT NOT NULL CHECK (kind IN ('raw','final','other')),
  size_bytes  INTEGER NOT NULL,
  blake3      TEXT,
  duration_ms INTEGER,
  width       INTEGER,
  height      INTEGER,
  fps         REAL,
  codec       TEXT,
  recorded_at TEXT,
  imported_at TEXT NOT NULL,
  missing     INTEGER NOT NULL DEFAULT 0,
  UNIQUE (root_id, rel_path)
);
CREATE INDEX IF NOT EXISTS idx_assets_hash ON assets(blake3);

CREATE TABLE IF NOT EXISTS posts (
  id                TEXT PRIMARY KEY,
  reel_id           TEXT NOT NULL REFERENCES reels(id) ON DELETE CASCADE,
  platform          TEXT NOT NULL CHECK (platform IN ('instagram','tiktok','youtube')),
  caption           TEXT,
  hashtags          TEXT,
  scheduled_at      TEXT,
  status            TEXT NOT NULL DEFAULT 'draft' CHECK (status IN
                    ('draft','queued','pushed','scheduled','published',
                     'verified','failed','canceled')),
  metricool_post_id TEXT,
  published_url     TEXT,
  error             TEXT,
  pushed_at         TEXT,
  published_at      TEXT,
  verified_at       TEXT,
  UNIQUE (reel_id, platform)
);
CREATE INDEX IF NOT EXISTS idx_posts_sched  ON posts(scheduled_at);
CREATE INDEX IF NOT EXISTS idx_posts_status ON posts(status);

CREATE TABLE IF NOT EXISTS metric_snapshots (
  id         TEXT PRIMARY KEY,
  post_id    TEXT NOT NULL REFERENCES posts(id) ON DELETE CASCADE,
  fetched_at TEXT NOT NULL,
  views      INTEGER, likes INTEGER, comments INTEGER,
  shares     INTEGER, saves INTEGER,
  raw        TEXT
);

CREATE TABLE IF NOT EXISTS caption_templates (
  id       TEXT PRIMARY KEY,
  name     TEXT NOT NULL,
  platform TEXT CHECK (platform IN ('instagram','tiktok','youtube')),
  body     TEXT NOT NULL
);

CREATE TABLE IF NOT EXISTS jobs (
  id          TEXT PRIMARY KEY,
  kind        TEXT NOT NULL,
  payload     TEXT NOT NULL,
  status      TEXT NOT NULL DEFAULT 'queued'
              CHECK (status IN ('queued','running','done','failed')),
  attempts    INTEGER NOT NULL DEFAULT 0,
  error       TEXT,
  created_at  TEXT NOT NULL,
  finished_at TEXT
);

CREATE TABLE IF NOT EXISTS activity_log (
  id         INTEGER PRIMARY KEY AUTOINCREMENT,
  at         TEXT NOT NULL,
  entity     TEXT NOT NULL,
  entity_id  TEXT NOT NULL,
  action     TEXT NOT NULL,
  detail     TEXT
);

CREATE TABLE IF NOT EXISTS ai_generations (
  id         TEXT PRIMARY KEY,
  kind       TEXT NOT NULL,
  input      TEXT NOT NULL,
  output     TEXT NOT NULL,
  model      TEXT,
  accepted   INTEGER NOT NULL DEFAULT 0,
  entity     TEXT, entity_id TEXT,
  created_at TEXT NOT NULL
);

CREATE VIRTUAL TABLE IF NOT EXISTS fts USING fts5(
  content,
  entity UNINDEXED,
  entity_id UNINDEXED
);
";

// ── trusted calls into rusqlite ──────────────────────────────────

/// rusqlite `Connection::open_in_memory`: a fresh, empty in-memory database.
#[verifier::external_body]
fn connection_open_in_memory() -> std::result::Result<rusqlite::Connection, rusqlite::Error> {
    rusqlite::Connection::open_in_memory()
}

/// rusqlite `Connection::open`: the database file at `path` (created when
/// missing).
#[verifier::external_body]
fn connection_open(path: &str) -> std::result::Result<rusqlite::Connection, rusqlite::Error> {
    rusqlite::Connection::open(path)
}

/// rusqlite `Connection::execute_batch`: runs the `;`-separated statements of
/// `sql` in order. What it does to the database is SQLite's business.
#[verifier::external_body]
fn connection_execute_batch(conn: &rusqlite::Connection, sql: &str) -> std::result::Result<
    (),
    rusqlite::Error,
> {
    conn.execute_batch(sql)
}

/// rusqlite's SQLite value type, carried opaquely between the calls below.
#[verifier::external_type_specification]
#[verifier::external_body]
pub struct ExSqliteValue(rusqlite::types::Value);

/// Converts parameters one for one into rusqlite values.
#[verifier::external_body]
fn bind(params: &Vec<Param>) -> Vec<rusqlite::types::Value> {
    params.iter().map(|p| match p {
        Param::Null => rusqlite::types::Value::Null,
        Param::Int(i) => rusqlite::types::Value::Integer(*i),
        Param::Text(s) => rusqlite::types::Value::Text(s.clone()),
    }).collect()
}

/// Converts result rows one for one from rusqlite values.
#[verifier::external_body]
fn cells(rows: Vec<Vec<rusqlite::types::Value>>) -> Vec<Row> {
    rows.into_iter().map(|row| row.into_iter().map(|v| match v {
        rusqlite::types::Value::Null => SqlValue::Null,
        rusqlite::types::Value::Integer(i) => SqlValue::Int(i),
        rusqlite::types::Value::Real(f) => SqlValue::Real(f.to_bits()),
        rusqlite::types::Value::Text(s) => SqlValue::Text(s),
        rusqlite::types::Value::Blob(b) => SqlValue::Blob(b),
    }).collect()).collect()
}

/// rusqlite `Connection::execute`: runs one statement with `params` bound to
/// `?1, ?2, …` and returns the number of rows it changed. The count depends
/// on the database's contents, so nothing is stated of it.
#[verifier::external_body]
fn connection_execute(conn: &rusqlite::Connection, sql: &str, params: &Vec<Param>) -> std::result::Result<
    usize,
    rusqlite::Error,
> {
    conn.execute(sql, rusqlite::params_from_iter(bind(params)))
}

/// rusqlite `Connection::prepare` + `Statement::query_map`: runs one query with
/// `params` bound to `?1, ?2, …` and returns every result row, each as its
/// column values. The rows depend on the database's contents, so nothing is
/// stated of them.
#[verifier::external_body]
fn connection_query(conn: &rusqlite::Connection, sql: &str, params: &Vec<Param>) -> std::result::Result<
    Vec<Vec<rusqlite::types::Value>>,
    rusqlite::Error,
> {
    let mut stmt = conn.prepare(sql)?;
    let n = stmt.column_count();
    let rows = stmt.query_map(rusqlite::params_from_iter(bind(params)), |r| {
        (0..n).map(|i| r.get(i)).collect()
    })?;
    rows.collect()
}

/// rusqlite's `Error::QueryReturnedNoRows`, the error `query_row` gives when a
/// query finds nothing.
#[verifier::external_body]
fn no_rows_error() -> rusqlite::Error {
    rusqlite::Error::QueryReturnedNoRows
}

// ── verified helpers over the trusted calls ──────────────────────

impl Db {
    /// Open (or create) the database file at `path` and apply the schema.
    pub fn open(path: &str) -> (r: Result<Db>)
        ensures
            r matches Err(e) ==> e is Sqlite,
    {
        let conn = match connection_open(path) {
            Ok(c) => c,
            Err(e) => return Err(CoreError::Sqlite(e)),
        };
        match connection_execute_batch(&conn, SCHEMA) {
            Ok(()) => Ok(Db { conn }),
            Err(e) => Err(CoreError::Sqlite(e)),
        }
    }

    /// A fresh in-memory database with the schema applied.
    pub fn open_in_memory() -> (r: Result<Db>)
        ensures
            r matches Err(e) ==> e is Sqlite,
    {
        let conn = match connection_open_in_memory() {
            Ok(c) => c,
            Err(e) => return Err(CoreError::Sqlite(e)),
        };
        match connection_execute_batch(&conn, SCHEMA) {
            Ok(()) => Ok(Db { conn }),
            Err(e) => Err(CoreError::Sqlite(e)),
        }
    }
}

/// Runs `;`-separated statements.
pub fn execute_batch(conn: &rusqlite::Connection, sql: &str) -> (r: Result<()>)
    ensures
        r matches Err(e) ==> e is Sqlite,
{
    match connection_execute_batch(conn, sql) {
        Ok(()) => Ok(()),
        Err(e) => Err(CoreError::Sqlite(e)),
    }
}

/// Runs one statement; the number of changed rows.
pub fn execute(conn: &rusqlite::Connection, sql: &str, params: &Vec<Param>) -> (r: Result<usize>)
    ensures
        r matches Err(e) ==> e is Sqlite,
{
    match connection_execute(conn, sql, params) {
        Ok(n) => Ok(n),
        Err(e) => Err(CoreError::Sqlite(e)),
    }
}

/// All rows of one query.
pub fn query(conn: &rusqlite::Connection, sql: &str, params: &Vec<Param>) -> (r: Result<Vec<Row>>)
    ensures
        r matches Err(e) ==> e is Sqlite,
{
    match connection_query(conn, sql, params) {
        Ok(rows) => Ok(cells(rows)),
        Err(e) => Err(CoreError::Sqlite(e)),
    }
}

/// The first row of one query, if any.
pub fn query_opt(conn: &rusqlite::Connection, sql: &str, params: &Vec<Param>) -> (r: Result<
    Option<Row>,
>)
    ensures
        r matches Err(e) ==> e is Sqlite,
{
    let mut rows = query(conn, sql, params)?;
    if rows.len() == 0 {
        Ok(None)
    } else {
        Ok(Some(rows.swap_remove(0)))
    }
}

/// The first row of one query; an error when there is none.
pub fn query_one(conn: &rusqlite::Connection, sql: &str, params: &Vec<Param>) -> (r: Result<Row>)
    ensures
        r matches Err(e) ==> e is Sqlite,
{
    match query_opt(conn, sql, params)? {
        Some(r) => Ok(r),
        None => Err(CoreError::Sqlite(no_rows_error())),
    }
}

// ── binding and decoding plain values ────────────────────────────

/// A text parameter.
pub fn text(s: &str) -> (v: Param)
    ensures
        v matches Param::Text(t) && t@ == s@,
{
    Param::Text(owned(s))
}

/// An optional text parameter (NULL for `None`).
pub fn opt_text(s: Option<&str>) -> (v: Param)
    ensures
        s is None ==> v is Null,
        s matches Some(x) ==> (v matches Param::Text(t) && t@ == x@),
{
    match s {
        Some(x) => Param::Text(owned(x)),
        None => Param::Null,
    }
}

/// An optional integer parameter (NULL for `None`).
pub fn opt_int(i: Option<i64>) -> (v: Param)
    ensures
        i is None ==> v is Null,
        i matches Some(x) ==> v == Param::Int(x),
{
    match i {
        Some(x) => Param::Int(x),
        None => Param::Null,
    }
}

/// The parameters of a write that binds only text values, in order.
pub fn texts_write(vals: &[&str]) -> (p: Vec<Param>)
    ensures
        params_view(p@) == vals@.map_values(|s: &str| ParamView::Text(s@)),
{
    let mut p: Vec<Param> = Vec::new();
    let mut i: usize = 0;
    while i < vals.len()
        invariant
            i <= vals.len(),
            params_view(p@) == vals@.take(i as int).map_values(|s: &str| ParamView::Text(s@)),
        decreases vals.len() - i,
    {
        let ghost before = p@;
        let x = text(vals[i]);
        assert(param_view(x) == ParamView::Text(vals@[i as int]@));
        p.push(x);
        proof {
            assert(vals@.take(i + 1) =~= vals@.take(i as int).push(vals@[i as int]));
            assert(p@ == before.push(x));
            assert(params_view(p@) =~= params_view(before).push(param_view(x)));
        }
        i += 1;
        assert(params_view(p@) =~= vals@.take(i as int).map_values(|s: &str| ParamView::Text(s@)));
    }
    assert(vals@.take(vals.len() as int) =~= vals@);
    p
}

/// The parameters of a flag set on a row: the flag (1 or 0), then the id.
pub fn flag_write(b: bool, id: &str) -> (p: Vec<Param>)
    ensures
        params_view(p@) == seq![ParamView::Int(if b { 1 } else { 0 }), ParamView::Text(id@)],
{
    let p = vec![flag(b), text(id)];
    assert(params_view(p@) =~= seq![ParamView::Int(if b { 1 } else { 0 }), ParamView::Text(id@)]);
    p
}

/// A boolean parameter (1 or 0).
pub fn flag(b: bool) -> (v: Param)
    ensures
        v == Param::Int(if b { 1 } else { 0 }),
{
    Param::Int(if b { 1 } else { 0 })
}

/// rusqlite's `Error::InvalidColumnType` for column `i`, the error a typed
/// column read gives when the stored value has another type.
#[verifier::external_body]
fn column_type_error(i: usize) -> rusqlite::Error {
    rusqlite::Error::InvalidColumnType(i, String::new(), rusqlite::types::Type::Null)
}

fn bad_column(i: usize) -> (e: CoreError)
    ensures
        e is Sqlite,
{
    CoreError::Sqlite(column_type_error(i))
}

/// Column `i` of a row when it holds text.
pub open spec fn text_cell(row: Seq<SqlValue>, i: int) -> Option<Seq<char>> {
    if 0 <= i < row.len() && row[i] is Text {
        Some(row[i]->Text_0@)
    } else {
        None
    }
}

/// Column `i` of a row when it holds text or NULL (`Some(None)` for NULL).
pub open spec fn opt_text_cell(row: Seq<SqlValue>, i: int) -> Option<Option<Seq<char>>> {
    if 0 <= i < row.len() && row[i] is Text {
        Some(Some(row[i]->Text_0@))
    } else if 0 <= i < row.len() && row[i] is Null {
        Some(None)
    } else {
        None
    }
}

/// Column `i` of a row when it holds an integer.
pub open spec fn int_cell(row: Seq<SqlValue>, i: int) -> Option<i64> {
    if 0 <= i < row.len() && row[i] is Int {
        Some(row[i]->Int_0)
    } else {
        None
    }
}

/// Column `i` of a row when it holds an integer or NULL.
pub open spec fn opt_int_cell(row: Seq<SqlValue>, i: int) -> Option<Option<i64>> {
    if 0 <= i < row.len() && row[i] is Int {
        Some(Some(row[i]->Int_0))
    } else if 0 <= i < row.len() && row[i] is Null {
        Some(None)
    } else {
        None
    }
}

/// Column `i` of a row as a flag (a non-zero integer).
pub open spec fn bool_cell(row: Seq<SqlValue>, i: int) -> Option<bool> {
    match int_cell(row, i) {
        Some(n) => Some(n != 0),
        None => None,
    }
}

/// Column `i` as text.
pub fn col_text(row: &Row, i: usize) -> (r: Result<String>)
    ensures
        r matches Err(e) ==> e is Sqlite,
        r is Ok <==> text_cell(row@, i as int) is Some,
        r matches Ok(s) ==> text_cell(row@, i as int) == Some(s@),
{
    if i < row.len() {
        match &row[i] {
            SqlValue::Text(s) => Ok(s.clone()),
            _ => Err(bad_column(i)),
        }
    } else {
        Err(bad_column(i))
    }
}

/// Column `i` as optional text (NULL is `None`).
pub fn col_opt_text(row: &Row, i: usize) -> (r: Result<Option<String>>)
    ensures
        r matches Err(e) ==> e is Sqlite,
        r is Ok <==> opt_text_cell(row@, i as int) is Some,
        r matches Ok(o) ==> opt_text_cell(row@, i as int) == Some(crate::text::opt_view(o)),
{
    if i < row.len() {
        match &row[i] {
            SqlValue::Text(s) => Ok(Some(s.clone())),
            SqlValue::Null => Ok(None),
            _ => Err(bad_column(i)),
        }
    } else {
        Err(bad_column(i))
    }
}

/// Column `i` as an integer.
pub fn col_int(row: &Row, i: usize) -> (r: Result<i64>)
    ensures
        r matches Err(e) ==> e is Sqlite,
        r is Ok <==> int_cell(row@, i as int) is Some,
        r matches Ok(n) ==> int_cell(row@, i as int) == Some(n),
{
    if i < row.len() {
        match &row[i] {
            SqlValue::Int(n) => Ok(*n),
            _ => Err(bad_column(i)),
        }
    } else {
        Err(bad_column(i))
    }
}

/// Column `i` as an optional integer (NULL is `None`).
pub fn col_opt_int(row: &Row, i: usize) -> (r: Result<Option<i64>>)
    ensures
        r matches Err(e) ==> e is Sqlite,
        r is Ok <==> opt_int_cell(row@, i as int) is Some,
        r matches Ok(o) ==> opt_int_cell(row@, i as int) == Some(o),
{
    if i < row.len() {
        match &row[i] {
            SqlValue::Int(n) => Ok(Some(*n)),
            SqlValue::Null => Ok(None),
            _ => Err(bad_column(i)),
        }
    } else {
        Err(bad_column(i))
    }
}

/// Column `i` as a boolean flag (non-zero integer).
pub fn col_bool(row: &Row, i: usize) -> (r: Result<bool>)
    ensures
        r matches Err(e) ==> e is Sqlite,
        r is Ok <==> bool_cell(row@, i as int) is Some,
        r matches Ok(b) ==> bool_cell(row@, i as int) == Some(b),
{
    let n = col_int(row, i)?;
    Ok(n != 0)
}

} // verus!
