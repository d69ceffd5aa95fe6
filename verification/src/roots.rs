//! Storage roots: the registered media folders (a local drive or a NAS share)
//! and the rules for registering, re-pointing and removing them. Whatever
//! touches the folders themselves (the marker file, the standard sub-folders,
//! the free-space probe) stays with the caller; this module keeps the records.

use vstd::prelude::*;

use crate::db::{Row, SqlValue, col_bool, col_int, col_text, execute, flag, query, query_one, text, text_cell};
use crate::text::{dec_int, is_blank, owned, push_int, str_eq, trim, trimmed};
use crate::{CoreError, Result, ids, invalid, invalid_with, not_found};

verus! {

/// The file, inside every root, that holds the root's id.
pub const MARKER_FILE: &'static str = ".contentos-root";

/// A registered storage root.
#[derive(Clone, Debug)]
pub struct StorageRoot {
    pub id: String,
    pub name: String,
    pub path: String,
    pub kind: String,
    pub online: bool,
    pub created_at: String,
    /// Free disk space at the root's volume (`None` when offline).
    pub free_bytes: Option<i64>,
}

/// A storage root as the database keeps it.
#[derive(Clone, Debug)]
pub struct RootRecord {
    pub id: String,
    pub name: String,
    pub path: String,
    pub kind: String,
    pub created_at: String,
}

/// The kinds a root may have.
pub open spec fn root_kind_ok(kind: Seq<char>) -> bool {
    kind == "local"@ || kind == "nas"@
}

/// The checks on a new root, in order: the kind must be `local` or `nas`, and
/// the name must not be blank.
pub fn check_new_root(name: &str, kind: &str) -> (r: Result<()>)
    ensures
        !root_kind_ok(kind@) ==> (r matches Err(CoreError::Invalid(m)) && m@ == "invalid root kind: "@
            + kind@),
        root_kind_ok(kind@) && trim(name@).len() == 0 ==> (r matches Err(CoreError::Invalid(m)) && m@
            == "root name is required"@),
        root_kind_ok(kind@) && trim(name@).len() > 0 ==> r is Ok,
{
    if !(str_eq(kind, "local") || str_eq(kind, "nas")) {
        return Err(invalid_with("invalid root kind: ", kind));
    }
    if is_blank(name) {
        return Err(invalid("root name is required"));
    }
    Ok(())
}

/// The refusal for a path that is not an existing directory.
pub fn not_a_directory(path: &str) -> (e: CoreError)
    ensures
        e matches CoreError::Invalid(m) && m@ == "folder does not exist or is not a directory: "@
            + path@,
{
    invalid_with("folder does not exist or is not a directory: ", path)
}

/// The refusal for a folder whose marker names a registered root.
pub fn already_registered() -> (e: CoreError)
    ensures
        e matches CoreError::Invalid(m) && m@ == "this folder is already registered as a storage root"@,
{
    invalid("this folder is already registered as a storage root")
}

/// The refusal for re-pointing a root at a folder marked for another root.
pub fn marker_mismatch() -> (e: CoreError)
    ensures
        e matches CoreError::Invalid(m) && m@ == "that folder belongs to a different storage root"@,
{
    invalid("that folder belongs to a different storage root")
}

/// Whether a marker file's contents name the root `id` (surrounding white
/// space ignored).
pub fn marker_matches(contents: &str, id: &str) -> (b: bool)
    ensures
        b == (trim(contents@) == id@),
{
    let t = trimmed(contents);
    str_eq(t.as_str(), id)
}

/// Whether a root with this id is registered.
pub fn root_registered(conn: &rusqlite::Connection, id: &str) -> (r: Result<bool>)
    ensures
        r matches Err(e) ==> e is Sqlite,
{
    let row = query_one(
        conn,
        "SELECT EXISTS(SELECT 1 FROM storage_roots WHERE id = ?1)",
        &crate::db::texts_write(&[id]),
    )?;
    col_bool(&row, 0)
}

/// The parameters of a new root's row: id, name, path, kind, creation time
/// (it is stored online).
pub fn root_insert_write(root: &StorageRoot) -> (p: Vec<crate::db::Param>)
    ensures
        crate::db::params_view(p@) == seq![
            crate::db::ParamView::Text(root.id@),
            crate::db::ParamView::Text(root.name@),
            crate::db::ParamView::Text(root.path@),
            crate::db::ParamView::Text(root.kind@),
            crate::db::ParamView::Text(root.created_at@),
        ],
{
    let p = vec![
        text(root.id.as_str()),
        text(root.name.as_str()),
        text(root.path.as_str()),
        text(root.kind.as_str()),
        text(root.created_at.as_str()),
    ];
    assert(crate::db::params_view(p@) =~= seq![
        crate::db::ParamView::Text(root.id@),
        crate::db::ParamView::Text(root.name@),
        crate::db::ParamView::Text(root.path@),
        crate::db::ParamView::Text(root.kind@),
        crate::db::ParamView::Text(root.created_at@),
    ]);
    p
}

/// Record a new root under `id` (the marker's id), online, its name trimmed.
pub fn register_root(
    conn: &rusqlite::Connection,
    id: &str,
    name: &str,
    path: &str,
    kind: &str,
    free_bytes: Option<i64>,
) -> (r: Result<StorageRoot>)
    ensures
        r matches Err(e) ==> e is Sqlite,
        r matches Ok(root) ==> {
            &&& root.id@ == id@
            &&& root.name@ == trim(name@)
            &&& root.path@ == path@
            &&& root.kind@ == kind@
            &&& root.online
            &&& root.free_bytes == free_bytes
        },
{
    let root = StorageRoot {
        id: owned(id),
        name: trimmed(name),
        path: owned(path),
        kind: owned(kind),
        online: true,
        created_at: ids::now_iso(),
        free_bytes,
    };
    execute(
        conn,
        "INSERT INTO storage_roots (id, name, path, kind, online, created_at)
         VALUES (?1, ?2, ?3, ?4, 1, ?5)",
        &root_insert_write(&root),
    )?;
    Ok(root)
}

/// A row decodes as a storage root record: every column has the expected type.
pub open spec fn root_row_ok(row: Seq<SqlValue>) -> bool {
    &&& text_cell(row, 0) is Some
    &&& text_cell(row, 1) is Some
    &&& text_cell(row, 2) is Some
    &&& text_cell(row, 3) is Some
    &&& text_cell(row, 4) is Some
}

/// `x` is a storage root record decoded from `row`, column by column.
pub open spec fn root_of_row(x: RootRecord, row: Seq<SqlValue>) -> bool {
    &&& text_cell(row, 0) == Some(x.id@)
    &&& text_cell(row, 1) == Some(x.name@)
    &&& text_cell(row, 2) == Some(x.path@)
    &&& text_cell(row, 3) == Some(x.kind@)
    &&& text_cell(row, 4) == Some(x.created_at@)
}

/// `x` was decoded from some row.
pub open spec fn root_decoded(x: RootRecord) -> bool {
    exists|row: Seq<SqlValue>| root_of_row(x, row)
}

/// Decode a storage root record from a result row.
pub fn row_to_record(r: &Row) -> (rec: Result<RootRecord>)
    ensures
        rec matches Err(e) ==> e is Sqlite,
        rec is Ok <==> root_row_ok(r@),
        rec matches Ok(x) ==> root_of_row(x, r@),
{
    Ok(RootRecord {
        id: col_text(r, 0)?,
        name: col_text(r, 1)?,
        path: col_text(r, 2)?,
        kind: col_text(r, 3)?,
        created_at: col_text(r, 4)?,
    })
}

/// The registered roots, oldest first.
pub fn registered_roots(conn: &rusqlite::Connection) -> (r: Result<Vec<RootRecord>>)
    ensures
        r matches Ok(v) ==> forall|k: int| 0 <= k < v.len() ==> root_decoded(#[trigger] v@[k]),
        r matches Err(e) ==> e is Sqlite,
{
    let rows = query(
        conn,
        "SELECT id, name, path, kind, created_at FROM storage_roots ORDER BY created_at",
        &vec![],
    )?;
    let mut out: Vec<RootRecord> = Vec::new();
    let mut i: usize = 0;
    while i < rows.len()
        invariant
            i <= rows.len(),
            forall|k: int| 0 <= k < out.len() ==> root_decoded(#[trigger] out@[k]),
        decreases rows.len() - i,
    {
        let x = row_to_record(&rows[i])?;
        assert(root_of_row(x, rows@[i as int]@));
        out.push(x);
        i += 1;
    }
    Ok(out)
}

/// Store the result of a live online check and give the root as listed: its
/// free space only when online.
pub fn record_online(
    conn: &rusqlite::Connection,
    rec: RootRecord,
    online: bool,
    free_bytes: Option<i64>,
) -> (r: Result<StorageRoot>)
    ensures
        r matches Err(e) ==> e is Sqlite,
        r matches Ok(root) ==> {
            &&& root.id == rec.id
            &&& root.name == rec.name
            &&& root.path == rec.path
            &&& root.kind == rec.kind
            &&& root.created_at == rec.created_at
            &&& root.online == online
            &&& root.free_bytes == (if online { free_bytes } else { None })
        },
{
    execute(
        conn,
        "UPDATE storage_roots SET online = ?1 WHERE id = ?2",
        &crate::db::flag_write(online, rec.id.as_str()),
    )?;
    Ok(StorageRoot {
        id: rec.id,
        name: rec.name,
        path: rec.path,
        kind: rec.kind,
        online,
        created_at: rec.created_at,
        free_bytes: if online {
            free_bytes
        } else {
            None
        },
    })
}

/// Point an existing root at a new location and mark it online.
pub fn repoint_root(conn: &rusqlite::Connection, id: &str, new_path: &str) -> (r: Result<()>)
    ensures
        !(r matches Err(CoreError::Invalid(_))),
        r matches Err(CoreError::NotFound(m)) ==> m@ == "storage root "@ + id@,
{
    let changed = execute(
        conn,
        "UPDATE storage_roots SET path = ?1, online = 1 WHERE id = ?2",
        &crate::db::texts_write(&[new_path, id]),
    )?;
    if changed == 0 {
        return Err(not_found("storage root ", id));
    }
    Ok(())
}

/// The refusal to remove a root that `count` indexed files still use.
pub fn root_in_use(count: i64) -> (e: CoreError)
    ensures
        e matches CoreError::Invalid(m) && m@ == "cannot remove: "@ + dec_int(count as int)
            + " indexed files still reference this root"@,
{
    let mut m = String::from_str("cannot remove: ");
    push_int(&mut m, count);
    m.append(" indexed files still reference this root");
    CoreError::Invalid(m)
}

/// Remove a root's registration. Refuses while assets still reference it;
/// never touches files on disk.
pub fn remove_root(conn: &rusqlite::Connection, id: &str) -> (r: Result<()>)
    ensures
        r matches Err(CoreError::Invalid(m)) ==> exists|n: i64| n > 0 && m@ == "cannot remove: "@
            + dec_int(n as int) + " indexed files still reference this root"@,
        r matches Err(CoreError::NotFound(m)) ==> m@ == "storage root "@ + id@,
{
    let row = query_one(conn, "SELECT COUNT(*) FROM assets WHERE root_id = ?1", &crate::db::texts_write(&[id]))?;
    let assets = col_int(&row, 0)?;
    if assets > 0 {
        return Err(root_in_use(assets));
    }
    let changed = execute(conn, "DELETE FROM storage_roots WHERE id = ?1", &crate::db::texts_write(&[id]))?;
    if changed == 0 {
        return Err(not_found("storage root ", id));
    }
    Ok(())
}

} // verus!
