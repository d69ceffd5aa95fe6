//! The home screen's numbers: reels per status, failed jobs, storage roots
//! online, reels scheduled this week and reels stuck in the pipeline.

use vstd::prelude::*;

use crate::db::{col_int, col_text, query};
use crate::roots::StorageRoot;
use crate::{CoreError, Result, jobs, reels};

verus! {

/// What the app reports about itself.
#[derive(Clone, Debug)]
pub struct AppInfo {
    pub version: String,
    pub db_path: String,
}

/// The dashboard's numbers.
#[derive(Clone, Debug)]
pub struct DashboardStats {
    /// Each status in use, with its number of reels.
    pub reels_by_status: Vec<(String, i64)>,
    /// Failed background jobs.
    pub problems: i64,
    pub roots_total: i64,
    pub roots_online: i64,
    pub scheduled_this_week: i64,
    /// Reels mid-pipeline untouched for four days or more.
    pub stuck_count: i64,
}

/// Reels stuck for this many days count on the dashboard.
pub const STUCK_DAYS: i64 = 4;

/// How many roots of `roots` are online.
pub open spec fn online_count(roots: Seq<StorageRoot>) -> int
    decreases roots.len(),
{
    if roots.len() == 0 {
        0
    } else {
        online_count(roots.drop_last()) + (if roots.last().online { 1int } else { 0 })
    }
}

proof fn lemma_online_count_bound(roots: Seq<StorageRoot>)
    ensures
        0 <= online_count(roots) <= roots.len(),
    decreases roots.len(),
{
    if roots.len() > 0 {
        lemma_online_count_bound(roots.drop_last());
    }
}

/// How many of the listed roots are online.
pub fn count_online(roots: &[StorageRoot]) -> (n: u64)
    ensures
        n == online_count(roots@),
{
    let mut n: u64 = 0;
    let mut i: usize = 0;
    assert(roots@.take(0) =~= Seq::<StorageRoot>::empty());
    while i < roots.len()
        invariant
            i <= roots.len(),
            n == online_count(roots@.take(i as int)),
        decreases roots.len() - i,
    {
        proof {
            assert(roots@.take(i + 1).drop_last() =~= roots@.take(i as int));
            lemma_online_count_bound(roots@.take(i as int));
        }
        if roots[i].online {
            n = n + 1;
        }
        i += 1;
    }
    assert(roots@.take(i as int) =~= roots@);
    n
}

/// A length as an `i64` count.
fn count(n: u64) -> (c: i64)
    ensures
        n <= 0x7fff_ffff_ffff_ffff ==> c == n,
{
    if n > 0x7fff_ffff_ffff_ffff {
        0x7fff_ffff_ffff_ffff
    } else {
        n as i64
    }
}

/// The number of reels in each status in use.
pub fn reels_by_status(conn: &rusqlite::Connection) -> (r: Result<Vec<(String, i64)>>)
    ensures
        r matches Err(e) ==> e is Sqlite,
{
    let rows = query(conn, "SELECT status, COUNT(*) FROM reels GROUP BY status", &vec![])?;
    let mut out: Vec<(String, i64)> = Vec::new();
    let mut i: usize = 0;
    while i < rows.len()
        invariant
            i <= rows.len(),
        decreases rows.len() - i,
    {
        let status = col_text(&rows[i], 0)?;
        let n = col_int(&rows[i], 1)?;
        out.push((status, n));
        i += 1;
    }
    Ok(out)
}

/// The dashboard's numbers, given the storage roots as listed (with their
/// live online check).
pub fn dashboard_stats(conn: &rusqlite::Connection, roots: &[StorageRoot]) -> (r: Result<DashboardStats>)
    requires
        roots.len() <= 0x7fff_ffff_ffff_ffff,
    ensures
        !(r matches Err(CoreError::Invalid(_))),
        r matches Ok(s) ==> {
            &&& s.roots_total == roots.len()
            &&& s.roots_online == online_count(roots@)
        },
{
    let reels_by_status = reels_by_status(conn)?;
    let problems = jobs::count_failed(conn)?;
    let online = count_online(roots);
    proof {
        lemma_online_count_bound(roots@);
    }
    let scheduled_this_week = reels::scheduled_this_week(conn)?;
    let stuck = reels::stuck(conn, STUCK_DAYS)?;
    Ok(DashboardStats {
        reels_by_status,
        problems,
        roots_total: count(roots.len() as u64),
        roots_online: count(online),
        scheduled_this_week,
        stuck_count: count(stuck.len() as u64),
    })
}

} // verus!
