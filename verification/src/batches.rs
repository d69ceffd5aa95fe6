//! Shoot batches: a day's shot list built from reels' scripts, with shared
//! components recorded once, takes per shot, and the selected take that
//! moves reels forward.

use vstd::prelude::*;

use crate::activity;
use crate::db::{Param, Row, col_bool, col_int, col_opt_int, col_opt_text, col_text, execute, execute_batch, opt_int, opt_text, query, query_one, query_opt, text};
use crate::ids::{self, code_text};
use crate::reels;
use crate::text::{dec_int_padded, is_blank, owned, push_int_padded, str_eq, trim, trimmed, views};
use crate::{CoreError, Result, invalid, invalid_with, not_found};

verus! {

/// A batch on the batches board.
#[derive(Clone, Debug)]
pub struct BatchSummary {
    pub id: String,
    pub code: String,
    pub name: String,
    pub shoot_date: Option<String>,
    pub status: String,
    pub shots_total: i64,
    pub shots_recorded: i64,
    pub reel_count: i64,
    pub created_at: String,
}

/// One recorded take of a shot.
#[derive(Clone, Debug)]
pub struct TakeView {
    pub id: String,
    pub take_number: i64,
    pub asset_id: String,
    pub filename: String,
    pub rating: Option<i64>,
    pub selected: bool,
}

/// One shot of a batch.
#[derive(Clone, Debug)]
pub struct ShotView {
    pub id: String,
    pub position: i64,
    pub status: String,
    pub kind: String,
    /// Filename key: component code (HK0031) or reel-block (R0142-S03).
    pub clip_key: String,
    pub text: String,
    /// Reel codes that use this shot's material.
    pub used_by: Vec<String>,
    pub takes: Vec<TakeView>,
    pub selected_take_id: Option<String>,
}

/// A batch with its shot list.
#[derive(Clone, Debug)]
pub struct BatchDetail {
    pub id: String,
    pub code: String,
    pub name: String,
    pub shoot_date: Option<String>,
    pub status: String,
    pub notes: Option<String>,
    pub shots: Vec<ShotView>,
}

// ── shot planning ────────────────────────────────────────────────

/// What a shot records: a shared component, or one reel's own-text block.
pub enum ShotKey {
    Component(String),
    Block(String),
}

/// The mathematical form of a shot key.
pub enum ShotKeyView {
    Component(Seq<char>),
    Block(Seq<char>),
}

impl View for ShotKey {
    type V = ShotKeyView;

    open spec fn view(&self) -> ShotKeyView {
        match self {
            ShotKey::Component(c) => ShotKeyView::Component(c@),
            ShotKey::Block(b) => ShotKeyView::Block(b@),
        }
    }
}

/// The keys of a list of shot keys.
pub open spec fn key_views(v: Seq<ShotKey>) -> Seq<ShotKeyView> {
    v.map_values(|k: ShotKey| k@)
}

/// One block to plan: its shot key and whether (for a component) it already
/// has a master take from an earlier batch.
pub struct PlanItem {
    pub key: ShotKey,
    pub mastered: bool,
}

/// Left-to-right shot planning over `items`, starting from the keys the
/// batch already has: a block gets a new shot unless its key is already
/// there (shared material is recorded once per batch) or it is a component
/// whose material is already mastered. Yields the keys present afterwards and
/// the new shots in order.
pub open spec fn plan_acc(existing: Set<ShotKeyView>, items: Seq<(ShotKeyView, bool)>) -> (Set<ShotKeyView>, Seq<ShotKeyView>)
    decreases items.len(),
{
    if items.len() == 0 {
        (existing, Seq::empty())
    } else {
        let (present, shots) = plan_acc(existing, items.drop_last());
        let (k, mastered) = items.last();
        if present.contains(k) || (k is Component && mastered) {
            (present, shots)
        } else {
            (present.insert(k), shots.push(k))
        }
    }
}

/// The new shots planned for `items`.
pub open spec fn plan(existing: Set<ShotKeyView>, items: Seq<(ShotKeyView, bool)>) -> Seq<ShotKeyView> {
    plan_acc(existing, items).1
}

/// The plain form of plan items.
pub open spec fn item_views(items: Seq<PlanItem>) -> Seq<(ShotKeyView, bool)> {
    items.map_values(|it: PlanItem| (it.key@, it.mastered))
}

fn key_eq(a: &ShotKey, b: &ShotKey) -> (r: bool)
    ensures
        r == (a@ == b@),
{
    match (a, b) {
        (ShotKey::Component(x), ShotKey::Component(y)) => str_eq(x.as_str(), y.as_str()),
        (ShotKey::Block(x), ShotKey::Block(y)) => str_eq(x.as_str(), y.as_str()),
        _ => false,
    }
}

fn copy_key(k: &ShotKey) -> (r: ShotKey)
    ensures
        r@ == k@,
{
    match k {
        ShotKey::Component(x) => ShotKey::Component(owned(x.as_str())),
        ShotKey::Block(x) => ShotKey::Block(owned(x.as_str())),
    }
}

fn contains_key(v: &Vec<ShotKey>, k: &ShotKey) -> (r: bool)
    ensures
        r == key_views(v@).contains(k@),
{
    let mut i: usize = 0;
    while i < v.len()
        invariant
            i <= v.len(),
            forall|j: int| 0 <= j < i ==> v@[j]@ != k@,
        decreases v.len() - i,
    {
        if key_eq(&v[i], k) {
            assert(key_views(v@)[i as int] == k@);
            return true;
        }
        i += 1;
    }
    proof {
        if key_views(v@).contains(k@) {
            let j = choose|j: int| 0 <= j < key_views(v@).len() && key_views(v@)[j] == k@;
            assert(key_views(v@)[j] == v@[j]@);
        }
    }
    false
}

/// Plan the new shots for a reel's blocks given the keys the batch holds;
/// `present` gains every new key.
pub fn plan_shots(present: &mut Vec<ShotKey>, items: &Vec<PlanItem>) -> (shots: Vec<ShotKey>)
    ensures
        key_views(shots@) == plan(key_views(old(present)@).to_set(), item_views(items@)),
        key_views(final(present)@).to_set() == plan_acc(
            key_views(old(present)@).to_set(),
            item_views(items@),
        ).0,
{
    let ghost start = key_views(present@).to_set();
    let mut shots: Vec<ShotKey> = Vec::new();
    let mut i: usize = 0;
    while i < items.len()
        invariant
            i <= items.len(),
            start == key_views(old(present)@).to_set(),
            key_views(present@).to_set() == plan_acc(start, item_views(items@).take(i as int)).0,
            key_views(shots@) == plan_acc(start, item_views(items@).take(i as int)).1,
        decreases items.len() - i,
    {
        let it = &items[i];
        proof {
            assert(item_views(items@).take(i + 1).drop_last() =~= item_views(items@).take(i as int));
            assert(item_views(items@).take(i + 1).last() == (it.key@, it.mastered));
        }
        let is_component = match &it.key {
            ShotKey::Component(_) => true,
            ShotKey::Block(_) => false,
        };
        let have = contains_key(present, &it.key);
        if !have && !(is_component && it.mastered) {
            let ghost before_p = present@;
            let ghost before_s = shots@;
            present.push(copy_key(&it.key));
            shots.push(copy_key(&it.key));
            proof {
                assert(key_views(present@) =~= key_views(before_p).push(it.key@));
                assert(key_views(shots@) =~= key_views(before_s).push(it.key@));
                key_views(before_p).lemma_push_to_set_commute(it.key@);
                assert(key_views(present@).to_set() =~= key_views(before_p).to_set().insert(it.key@));
            }
        }
        i += 1;
    }
    assert(item_views(items@).take(items.len() as int) =~= item_views(items@));
    shots
}

/// Shot planning never plans a key twice nor one the batch already had.
pub proof fn lemma_plan_fresh(existing: Set<ShotKeyView>, items: Seq<(ShotKeyView, bool)>)
    ensures
        plan(existing, items).no_duplicates(),
        forall|k: ShotKeyView| plan(existing, items).contains(k) ==> !existing.contains(k),
        forall|k: ShotKeyView| #[trigger] plan_acc(existing, items).0.contains(k) <==> (existing.contains(k)
            || plan(existing, items).contains(k)),
    decreases items.len(),
{
    if items.len() > 0 {
        lemma_plan_fresh(existing, items.drop_last());
        let (present, shots) = plan_acc(existing, items.drop_last());
        let (k, mastered) = items.last();
        if !(present.contains(k) || (k is Component && mastered)) {
            assert forall|x: ShotKeyView| shots.push(k).contains(x) implies !existing.contains(x) by {
                if x != k {
                    let j = choose|j: int| 0 <= j < shots.push(k).len() && shots.push(k)[j] == x;
                    assert(shots.contains(x));
                }
            }
            assert forall|x: ShotKeyView| #[trigger] present.insert(k).contains(x) <==> (existing.contains(x)
                || shots.push(k).contains(x)) by {
                if shots.push(k).contains(x) && x != k {
                    let j = choose|j: int| 0 <= j < shots.push(k).len() && shots.push(k)[j] == x;
                    assert(shots.contains(x));
                }
                if shots.contains(x) {
                    let j = choose|j: int| 0 <= j < shots.len() && shots[j] == x;
                    assert(shots.push(k)[j] == x);
                }
                assert(shots.push(k)[shots.len() as int] == k);
            }
        }
    }
}

/// Re-planning the same blocks against the keys a first planning left
/// behind creates nothing: adding reels to a batch twice is idempotent.
pub proof fn lemma_plan_idempotent(existing: Set<ShotKeyView>, items: Seq<(ShotKeyView, bool)>)
    ensures
        plan(plan_acc(existing, items).0, items).len() == 0,
{
    let after = plan_acc(existing, items).0;
    lemma_plan_keys_cover(existing, items, items.len() as int);
    assert forall|j: int| 0 <= j < items.len() && !(items[j].0 is Component && items[j].1) implies after.contains(
        #[trigger] items[j].0,
    ) by {
        assert(plan_acc(existing, items).0.contains(items[j].0));
    }
    lemma_plan_nothing_new(after, items, items.len() as int);
    assert(items.take(items.len() as int) =~= items);
}

proof fn lemma_plan_present_grows(existing: Set<ShotKeyView>, items: Seq<(ShotKeyView, bool)>, n: int, m: int)
    requires
        0 <= n <= m <= items.len(),
    ensures
        plan_acc(existing, items.take(n)).0.subset_of(plan_acc(existing, items.take(m)).0),
    decreases m - n,
{
    if n < m {
        lemma_plan_present_grows(existing, items, n, m - 1);
        assert(items.take(m).drop_last() =~= items.take(m - 1));
    }
}

/// Every item's key ends up present unless it is a mastered component.
proof fn lemma_plan_keys_cover(existing: Set<ShotKeyView>, items: Seq<(ShotKeyView, bool)>, n: int)
    requires
        0 <= n <= items.len(),
    ensures
        forall|j: int| 0 <= j < n && !(items[j].0 is Component && items[j].1) ==> #[trigger] plan_acc(
            existing,
            items,
        ).0.contains(items[j].0),
    decreases n,
{
    if n > 0 {
        lemma_plan_keys_cover(existing, items, n - 1);
        let j = n - 1;
        lemma_plan_present_grows(existing, items, n, items.len() as int);
        assert(items.take(n).drop_last() =~= items.take(j));
        assert(items.take(n).last() == items[j]);
        assert(items.take(items.len() as int) =~= items);
    }
}

/// Planning against a set that already holds every non-mastered key yields
/// nothing.
proof fn lemma_plan_nothing_new(present: Set<ShotKeyView>, items: Seq<(ShotKeyView, bool)>, n: int)
    requires
        0 <= n <= items.len(),
        forall|j: int| 0 <= j < items.len() && !(items[j].0 is Component && items[j].1) ==> present.contains(
            #[trigger] items[j].0,
        ),
    ensures
        plan_acc(present, items.take(n)).0 == present,
        plan_acc(present, items.take(n)).1.len() == 0,
    decreases n,
{
    if n > 0 {
        lemma_plan_nothing_new(present, items, n - 1);
        assert(items.take(n).drop_last() =~= items.take(n - 1));
        assert(items.take(n).last() == items[n - 1]);
    }
    if n == items.len() {
        assert(items.take(n) =~= items);
    }
}

/// The clip key of an own-text block: the reel code and the block's 1-based
/// position, two digits ("R0142-S03").
pub open spec fn block_clip_key(reel_code: Seq<char>, position: int) -> Seq<char> {
    reel_code + "-S"@ + dec_int_padded(position + 1, 2)
}

/// The clip key of an own-text block ("R0142-S03").
pub fn clip_key_for_block(reel_code: &str, position: i64) -> (k: String)
    ensures
        k@ == block_clip_key(reel_code@, position as int),
{
    let mut k = String::from_str(reel_code);
    k.append("-S");
    push_int_padded(&mut k, position as i128 + 1, 2);
    k
}

// ── validation ───────────────────────────────────────────────────

/// Batch statuses.
pub open spec fn batch_status_ok(s: Seq<char>) -> bool {
    s == "planning"@ || s == "ready"@ || s == "shooting"@ || s == "done"@
}

/// Shot statuses.
pub open spec fn shot_status_ok(s: Seq<char>) -> bool {
    s == "pending"@ || s == "recorded"@ || s == "skipped"@
}

/// A take rating is 1 to 5 stars, or none.
pub open spec fn rating_ok(r: Option<i64>) -> bool {
    r matches Some(x) ==> 1 <= x <= 5
}

// ── database operations ──────────────────────────────────────────

/// Create a batch in `planning` with the next `B###` code (name required,
/// stored trimmed).
pub fn create(conn: &rusqlite::Connection, name: &str, shoot_date: Option<&str>) -> (r: Result<BatchSummary>)
    ensures
        trim(name@).len() == 0 ==> (r matches Err(CoreError::Invalid(m)) && m@
            == "batch name is required"@),
        r matches Err(CoreError::Invalid(_)) ==> trim(name@).len() == 0,
        r matches Ok(b) ==> {
            &&& b.name@ == trim(name@)
            &&& b.status@ == "planning"@
            &&& b.shots_total == 0 && b.shots_recorded == 0 && b.reel_count == 0
            &&& (b.shoot_date is None <==> shoot_date is None)
            &&& (shoot_date matches Some(d) ==> b.shoot_date->0@ == d@)
            &&& exists|v: i64| b.code@ == code_text("B"@, v as int, 3)
        },
{
    if is_blank(name) {
        return Err(invalid("batch name is required"));
    }
    let code = ids::next_code(conn, "B", 3)?;
    let id = ids::new_id();
    let created_at = ids::now_iso();
    let name_t = trimmed(name);
    execute(
        conn,
        "INSERT INTO shoot_batches (id, code, name, shoot_date, status, created_at)
         VALUES (?1, ?2, ?3, ?4, 'planning', ?5)",
        &vec![text(id.as_str()), text(code.as_str()), text(name_t.as_str()), opt_text(shoot_date), text(created_at.as_str())],
    )?;
    activity::log(conn, "batch", code.as_str(), "created", None)?;
    Ok(BatchSummary {
        id,
        code,
        name: name_t,
        shoot_date: match shoot_date {
            Some(d) => Some(owned(d)),
            None => None,
        },
        status: owned("planning"),
        shots_total: 0,
        shots_recorded: 0,
        reel_count: 0,
        created_at,
    })
}

fn component_mastered(conn: &rusqlite::Connection, component_id: &str) -> (r: Result<bool>)
    ensures
        r matches Err(e) ==> e is Sqlite,
{
    let row = query_one(
        conn,
        "SELECT master_take_id IS NOT NULL FROM components WHERE id = ?1",
        &crate::db::texts_write(&[component_id]),
    )?;
    col_bool(&row, 0)
}

fn existing_keys(conn: &rusqlite::Connection, batch_id: &str) -> (r: Result<Vec<ShotKey>>)
    ensures
        r matches Err(e) ==> e is Sqlite,
{
    let rows = query(
        conn,
        "SELECT component_id, script_block_id FROM shots WHERE batch_id = ?1",
        &crate::db::texts_write(&[batch_id]),
    )?;
    let mut keys: Vec<ShotKey> = Vec::new();
    let mut i: usize = 0;
    while i < rows.len()
        invariant
            i <= rows.len(),
        decreases rows.len() - i,
    {
        if let Some(c) = col_opt_text(&rows[i], 0)? {
            keys.push(ShotKey::Component(c));
        }
        if let Some(b) = col_opt_text(&rows[i], 1)? {
            keys.push(ShotKey::Block(b));
        }
        i += 1;
    }
    Ok(keys)
}

/// The coverage looked up for one block: the key it was looked up by (the
/// block's component, or for own text the block itself) and whether that key
/// has selected material.
pub struct BlockCheck {
    pub key: ShotKey,
    pub covered: bool,
}

/// The key a block's coverage is looked up by: its component when linked,
/// else the block itself.
pub open spec fn coverage_key(b: reels::BlockView) -> ShotKeyView {
    match b.component_id {
        Some(c) => ShotKeyView::Component(c@),
        None => ShotKeyView::Block(b.id@),
    }
}

/// Whether each block of a reel has selected material: its component's
/// master take, or (own text) a shot of the block with a selected take.
/// Entry `j` is the lookup for block `j` itself.
fn block_coverage(conn: &rusqlite::Connection, detail: &reels::ReelDetail) -> (r: Result<Vec<BlockCheck>>)
    ensures
        r matches Err(e) ==> e is Sqlite,
        r matches Ok(v) ==> v.len() == detail.blocks.len(),
        r matches Ok(v) ==> forall|j: int| 0 <= j < v.len() ==> (#[trigger] v@[j]).key@ == coverage_key(detail.blocks@[j]),
{
    let mut cov: Vec<BlockCheck> = Vec::new();
    let mut i: usize = 0;
    while i < detail.blocks.len()
        invariant
            i <= detail.blocks.len(),
            cov.len() == i,
            forall|j: int| 0 <= j < cov.len() ==> (#[trigger] cov@[j]).key@ == coverage_key(detail.blocks@[j]),
        decreases detail.blocks.len() - i,
    {
        let b = &detail.blocks[i];
        cov.push(block_covered(conn, b)?);
        i += 1;
    }
    Ok(cov)
}

/// The covered flags of a reel's block checks, in block order.
fn coverage_flags(checks: &Vec<BlockCheck>) -> (f: Vec<bool>)
    ensures
        f.len() == checks.len(),
        forall|j: int| 0 <= j < f.len() ==> f@[j] == (#[trigger] checks@[j]).covered,
{
    let mut f: Vec<bool> = Vec::new();
    let mut i: usize = 0;
    while i < checks.len()
        invariant
            i <= checks.len(),
            f.len() == i,
            forall|j: int| 0 <= j < i ==> f@[j] == (#[trigger] checks@[j]).covered,
        decreases checks.len() - i,
    {
        f.push(checks[i].covered);
        i += 1;
    }
    f
}

/// Every block of a reel (and there is at least one) has selected material.
pub open spec fn all_covered(cov: Seq<bool>) -> bool {
    cov.len() > 0 && forall|j: int| 0 <= j < cov.len() ==> #[trigger] cov[j]
}

/// The status moves of a reel added to a batch, given whether each of its
/// blocks has selected material: `scripted` moves to `shotlisted`, and a
/// `scripted` or `shotlisted` reel whose every block is covered moves on to
/// `shot`; any other reel keeps its status.
pub open spec fn reel_moves_spec(status: Seq<char>, cov: Seq<bool>) -> Seq<Seq<char>> {
    if status == "scripted"@ {
        if all_covered(cov) {
            seq!["shotlisted"@, "shot"@]
        } else {
            seq!["shotlisted"@]
        }
    } else if status == "shotlisted"@ && all_covered(cov) {
        seq!["shot"@]
    } else {
        Seq::empty()
    }
}

fn all_true(cov: &[bool]) -> (b: bool)
    ensures
        b == all_covered(cov@),
{
    if cov.len() == 0 {
        return false;
    }
    let mut i: usize = 0;
    while i < cov.len()
        invariant
            i <= cov.len(),
            forall|j: int| 0 <= j < i ==> cov@[j],
        decreases cov.len() - i,
    {
        if !cov[i] {
            return false;
        }
        i += 1;
    }
    true
}

/// The status moves of a reel (see `reel_moves_spec`), in order.
pub fn reel_moves(status: &str, coverage: &[bool]) -> (moves: Vec<&'static str>)
    ensures
        moves@.map_values(|s: &str| s@) == reel_moves_spec(status@, coverage@),
{
    proof {
        reveal_strlit("scripted");
        reveal_strlit("shotlisted");
        reveal_strlit("shot");
    }
    let covered = all_true(coverage);
    let mut moves: Vec<&'static str> = Vec::new();
    if str_eq(status, "scripted") {
        moves.push("shotlisted");
        if covered {
            moves.push("shot");
        }
    } else if str_eq(status, "shotlisted") && covered {
        moves.push("shot");
    }
    assert(moves@.map_values(|s: &str| s@) =~= reel_moves_spec(status@, coverage@));
    moves
}

/// A reel is only ever moved to `shotlisted` or `shot` when added.
pub proof fn lemma_reel_moves_stages(status: Seq<char>, cov: Seq<bool>)
    ensures
        forall|q: int|
            0 <= q < reel_moves_spec(status, cov).len() ==> #[trigger] reel_moves_spec(status, cov)[q] == "shotlisted"@
                || reel_moves_spec(status, cov)[q] == "shot"@,
{
    let ms = reel_moves_spec(status, cov);
    if status == "scripted"@ {
        if all_covered(cov) {
            assert(ms[0] == "shotlisted"@ && ms[1] == "shot"@ && ms.len() == 2);
        } else {
            assert(ms[0] == "shotlisted"@ && ms.len() == 1);
        }
    } else if status == "shotlisted"@ && all_covered(cov) {
        assert(ms[0] == "shot"@ && ms.len() == 1);
    } else {
        assert(ms.len() == 0);
    }
}

/// A reel added to a batch reaches `shot` only when it has blocks and every
/// one of them is covered; a `scripted` reel always leaves `scripted` for
/// `shotlisted` first, and a reel in any other status than `scripted` or
/// `shotlisted` is not moved.
pub proof fn lemma_shot_needs_every_block(status: Seq<char>, cov: Seq<bool>)
    ensures
        reel_moves_spec(status, cov).contains("shot"@) ==> cov.len() > 0 && forall|j: int| 0 <= j < cov.len() ==> #[trigger] cov[j],
        (cov.len() > 0 && forall|j: int| 0 <= j < cov.len() ==> #[trigger] cov[j]) && (status == "scripted"@ || status
            == "shotlisted"@) ==> reel_moves_spec(status, cov).last() == "shot"@,
        status == "scripted"@ ==> reel_moves_spec(status, cov)[0] == "shotlisted"@,
        !(status == "scripted"@ || status == "shotlisted"@) ==> reel_moves_spec(status, cov).len() == 0,
{
    reveal_strlit("shot");
    reveal_strlit("shotlisted");
    reveal_strlit("scripted");
    let ms = reel_moves_spec(status, cov);
    if ms.contains("shot"@) {
        let k = choose|k: int| 0 <= k < ms.len() && ms[k] == "shot"@;
        if status == "scripted"@ && !all_covered(cov) {
            assert(ms.len() == 1 && ms[0] == "shotlisted"@);
            assert("shot"@ != "shotlisted"@) by {
                assert("shot"@.len() != "shotlisted"@.len());
            }
        }
        if !(status == "scripted"@) && !(status == "shotlisted"@ && all_covered(cov)) {
            assert(ms.len() == 0);
        }
    }
}

/// Apply a reel's status moves in order.
fn apply_moves(conn: &rusqlite::Connection, reel_id: &str, moves: &Vec<&'static str>) -> (r: Result<()>)
    requires
        forall|k: int| 0 <= k < moves.len() ==> (#[trigger] moves@[k])@ == "shotlisted"@ || moves@[k]@ == "shot"@,
    ensures
        r matches Err(CoreError::Invalid(m)) ==> reels::refused_move(m@, "shotlisted"@, false)
            || reels::refused_move(m@, "shot"@, false),
{
    let mut k: usize = 0;
    while k < moves.len()
        invariant
            k <= moves.len(),
            forall|q: int| 0 <= q < moves.len() ==> (#[trigger] moves@[q])@ == "shotlisted"@ || moves@[q]@ == "shot"@,
        decreases moves.len() - k,
    {
        proof {
            reels::lemma_stage_name_parses(reels::Stage::Shotlisted);
            reels::lemma_stage_name_parses(reels::Stage::Shot);
        }
        reels::set_status(conn, reel_id, moves[k], false)?;
        k += 1;
    }
    Ok(())
}

/// The planning item of a block: its component (with whether that component
/// has a master take) or, for own text, the block itself.
pub fn plan_item(block: &reels::BlockView, mastered: bool) -> (it: PlanItem)
    ensures
        block.component_id matches Some(c) ==> it.key@ == ShotKeyView::Component(c@) && it.mastered == mastered,
        block.component_id is None ==> it.key@ == ShotKeyView::Block(block.id@) && !it.mastered,
{
    match &block.component_id {
        Some(c) => PlanItem { key: ShotKey::Component(owned(c.as_str())), mastered },
        None => PlanItem { key: ShotKey::Block(owned(block.id.as_str())), mastered: false },
    }
}

/// The parameters of a new shot: id, batch, position, then the component or
/// the script block it films (the other NULL).
pub fn shot_insert_write(id: String, batch_id: &str, position: i64, key: &ShotKey) -> (p: Vec<Param>)
    ensures
        crate::db::params_view(p@) == seq![
            crate::db::ParamView::Text(id@),
            crate::db::ParamView::Text(batch_id@),
            crate::db::ParamView::Int(position),
        ] + match key@ {
            ShotKeyView::Component(c) => seq![crate::db::ParamView::Text(c), crate::db::ParamView::Null],
            ShotKeyView::Block(b) => seq![crate::db::ParamView::Null, crate::db::ParamView::Text(b)],
        },
{
    let (component, block) = match key {
        ShotKey::Component(c) => (text(c.as_str()), Param::Null),
        ShotKey::Block(x) => (Param::Null, text(x.as_str())),
    };
    let p = vec![Param::Text(id), text(batch_id), Param::Int(position), component, block];
    assert(crate::db::params_view(p@) =~= seq![
        crate::db::ParamView::Text(id@),
        crate::db::ParamView::Text(batch_id@),
        crate::db::ParamView::Int(position),
    ] + match key@ {
        ShotKeyView::Component(c) => seq![crate::db::ParamView::Text(c), crate::db::ParamView::Null],
        ShotKeyView::Block(b) => seq![crate::db::ParamView::Null, crate::db::ParamView::Text(b)],
    });
    p
}

/// The planning item of a block (see `plan_item`).
pub open spec fn block_item(b: reels::BlockView, mastered: bool) -> (ShotKeyView, bool) {
    match b.component_id {
        Some(c) => (ShotKeyView::Component(c@), mastered),
        None => (ShotKeyView::Block(b.id@), false),
    }
}

/// The planning items of a reel's blocks, given for each block whether its
/// component has a master take.
pub open spec fn block_items(bs: Seq<reels::BlockView>, mastered: Seq<bool>) -> Seq<(ShotKeyView, bool)> {
    Seq::new(bs.len(), |j: int| block_item(bs[j], mastered[j]))
}

/// The new shots for a reel's blocks, given the keys the batch holds and, per
/// block, whether its component has a master take: exactly `plan` of the
/// blocks' items. `present` gains every new key.
pub fn plan_reel_shots(present: &mut Vec<ShotKey>, blocks: &[reels::BlockView], mastered: &[bool]) -> (shots: Vec<ShotKey>)
    requires
        blocks.len() == mastered.len(),
    ensures
        key_views(shots@) == plan(key_views(old(present)@).to_set(), block_items(blocks@, mastered@)),
        key_views(final(present)@).to_set() == plan_acc(
            key_views(old(present)@).to_set(),
            block_items(blocks@, mastered@),
        ).0,
{
    let mut items: Vec<PlanItem> = Vec::new();
    let mut j: usize = 0;
    while j < blocks.len()
        invariant
            j <= blocks.len(),
            blocks.len() == mastered.len(),
            item_views(items@) == block_items(blocks@, mastered@).take(j as int),
        decreases blocks.len() - j,
    {
        let it = plan_item(&blocks[j], mastered[j]);
        let ghost before = items@;
        items.push(it);
        proof {
            assert(item_views(items@) =~= item_views(before).push((it.key@, it.mastered)));
            assert(block_items(blocks@, mastered@).take(j + 1) =~= block_items(blocks@, mastered@).take(j as int).push(
                block_item(blocks@[j as int], mastered@[j as int]),
            ));
        }
        j += 1;
    }
    assert(block_items(blocks@, mastered@).take(blocks.len() as int) =~= block_items(blocks@, mastered@));
    plan_shots(present, &items)
}

proof fn lemma_plan_grows(existing: Set<ShotKeyView>, items: Seq<(ShotKeyView, bool)>, i: int)
    requires
        0 <= i <= items.len(),
    ensures
        plan_acc(existing, items.take(i)).0.subset_of(plan_acc(existing, items).0),
    decreases items.len() - i,
{
    if i < items.len() {
        lemma_plan_grows(existing, items, i + 1);
        assert(items.take(i + 1).drop_last() =~= items.take(i));
    } else {
        assert(items.take(i) =~= items);
    }
}

/// Shot planning covers every item: after planning, each item's key is among
/// the batch's keys, unless it is a component that already has a master take.
pub proof fn lemma_plan_covers(existing: Set<ShotKeyView>, items: Seq<(ShotKeyView, bool)>)
    ensures
        forall|i: int|
            0 <= i < items.len() ==> plan_acc(existing, items).0.contains(#[trigger] items[i].0) || (items[i].0 is Component
                && items[i].1),
{
    assert forall|i: int| 0 <= i < items.len() implies plan_acc(existing, items).0.contains(#[trigger] items[i].0)
        || (items[i].0 is Component && items[i].1) by {
        let pre = items.take(i + 1);
        assert(pre.drop_last() =~= items.take(i));
        assert(pre.last() == items[i]);
        lemma_plan_grows(existing, items, i + 1);
    }
}

/// Adding reels to a batch, for one reel: the shots planned never repeat a
/// key or one the batch had, every block is covered by the batch's keys
/// afterwards (or by its component's master take), and planning the same
/// blocks again adds nothing.
pub proof fn lemma_reel_shots_plan(existing: Set<ShotKeyView>, blocks: Seq<reels::BlockView>, mastered: Seq<bool>)
    requires
        blocks.len() == mastered.len(),
    ensures
        plan(existing, block_items(blocks, mastered)).no_duplicates(),
        forall|k: ShotKeyView| plan(existing, block_items(blocks, mastered)).contains(k) ==> !existing.contains(k),
        forall|j: int|
            0 <= j < blocks.len() ==> match (#[trigger] blocks[j]).component_id {
                Some(c) => plan_acc(existing, block_items(blocks, mastered)).0.contains(ShotKeyView::Component(c@))
                    || mastered[j],
                None => plan_acc(existing, block_items(blocks, mastered)).0.contains(ShotKeyView::Block(blocks[j].id@)),
            },
        plan(plan_acc(existing, block_items(blocks, mastered)).0, block_items(blocks, mastered)).len() == 0,
{
    let items = block_items(blocks, mastered);
    lemma_plan_fresh(existing, items);
    lemma_plan_covers(existing, items);
    lemma_plan_idempotent(existing, items);
    assert forall|j: int| 0 <= j < blocks.len() implies match (#[trigger] blocks[j]).component_id {
        Some(c) => plan_acc(existing, items).0.contains(ShotKeyView::Component(c@)) || mastered[j],
        None => plan_acc(existing, items).0.contains(ShotKeyView::Block(blocks[j].id@)),
    } by {
        assert(items[j] == block_item(blocks[j], mastered[j]));
        assert(plan_acc(existing, items).0.contains(items[j].0) || (items[j].0 is Component && items[j].1));
    }
}

fn add_reels_in_tx(conn: &rusqlite::Connection, batch_id: &str, reel_ids: &[String]) -> (r: Result<()>)
    ensures
        r matches Err(CoreError::Invalid(m)) ==> m@ == "too many shots in this batch"@
            || reels::refused_move(m@, "shotlisted"@, false) || reels::refused_move(m@, "shot"@, false),
{
    let row = query_one(
        conn,
        "SELECT COALESCE(MAX(position), 0) + 1 FROM shots WHERE batch_id = ?1",
        &crate::db::texts_write(&[batch_id]),
    )?;
    let mut next_pos = col_int(&row, 0)?;
    let mut present = existing_keys(conn, batch_id)?;
    let mut r: usize = 0;
    while r < reel_ids.len()
        invariant
            r <= reel_ids.len(),
        decreases reel_ids.len() - r,
    {
        let reel_id = reel_ids[r].as_str();
        let detail = reels::get_detail(conn, reel_id)?;
        let mut mastered: Vec<bool> = Vec::new();
        let mut b: usize = 0;
        while b < detail.blocks.len()
            invariant
                b <= detail.blocks.len(),
                mastered.len() == b,
            decreases detail.blocks.len() - b,
        {
            let m = match &detail.blocks[b].component_id {
                Some(c) => component_mastered(conn, c.as_str())?,
                None => false,
            };
            mastered.push(m);
            b += 1;
        }
        let shots = plan_reel_shots(&mut present, detail.blocks.as_slice(), mastered.as_slice());
        let mut s: usize = 0;
        while s < shots.len()
            invariant
                s <= shots.len(),
            decreases shots.len() - s,
        {
            if next_pos == i64::MAX {
                return Err(invalid("too many shots in this batch"));
            }
            execute(
                conn,
                "INSERT INTO shots (id, batch_id, position, component_id, script_block_id) VALUES (?1, ?2, ?3, ?4, ?5)",
                &shot_insert_write(ids::new_id(), batch_id, next_pos, &shots[s]),
            )?;
            next_pos = next_pos + 1;
            s += 1;
        }
        // everything this reel needs may already be recorded (master takes)
        let checks = block_coverage(conn, &detail)?;
        let coverage = coverage_flags(&checks);
        let moves = reel_moves(detail.status.as_str(), coverage.as_slice());
        proof {
            lemma_reel_moves_stages(detail.status@, coverage@);
            assert forall|k: int| 0 <= k < moves.len() implies (#[trigger] moves@[k])@ == "shotlisted"@ || moves@[k]@
                == "shot"@ by {
                assert(moves@.map_values(|s: &str| s@)[k] == moves@[k]@);
                assert(reel_moves_spec(detail.status@, coverage@)[k] == moves@[k]@);
            }
        }
        apply_moves(conn, reel_id, &moves)?;
        r += 1;
    }
    Ok(())
}

/// Add reels' script blocks to a batch as shots, deduplicating shared
/// components: five reels sharing BD0007 produce ONE shot for it, and
/// material already mastered in an earlier batch is skipped. Added reels in
/// `scripted` advance to `shotlisted`, and on to `shot` when every block
/// already has material. All or nothing.
pub fn add_reels(conn: &rusqlite::Connection, batch_id: &str, reel_ids: &[String]) -> (r: Result<()>)
    ensures
        r matches Err(CoreError::Invalid(m)) ==> m@ == "too many shots in this batch"@
            || reels::refused_move(m@, "shotlisted"@, false) || reels::refused_move(m@, "shot"@, false),
{
    execute_batch(conn, "BEGIN DEFERRED")?;
    match add_reels_in_tx(conn, batch_id, reel_ids) {
        Ok(()) => {},
        Err(e) => {
            let _ = execute_batch(conn, "ROLLBACK");
            return Err(e);
        },
    }
    execute_batch(conn, "COMMIT")
}

/// Batches, newest first, with shot counts and the number of reels involved.
pub fn list(conn: &rusqlite::Connection) -> (r: Result<Vec<BatchSummary>>)
    ensures
        r matches Err(e) ==> e is Sqlite,
{
    let rows = query(
        conn,
        "SELECT b.id, b.code, b.name, b.shoot_date, b.status, b.created_at,
                (SELECT COUNT(*) FROM shots s WHERE s.batch_id = b.id),
                (SELECT COUNT(*) FROM shots s WHERE s.batch_id = b.id AND s.status = 'recorded')
         FROM shoot_batches b ORDER BY b.created_at DESC",
        &vec![],
    )?;
    let mut out: Vec<BatchSummary> = Vec::new();
    let mut i: usize = 0;
    while i < rows.len()
        invariant
            i <= rows.len(),
        decreases rows.len() - i,
    {
        let r = &rows[i];
        let id = col_text(r, 0)?;
        let reels_of = reels_in_batch(conn, id.as_str())?;
        out.push(BatchSummary {
            code: col_text(r, 1)?,
            name: col_text(r, 2)?,
            shoot_date: col_opt_text(r, 3)?,
            status: col_text(r, 4)?,
            created_at: col_text(r, 5)?,
            shots_total: col_int(r, 6)?,
            shots_recorded: col_int(r, 7)?,
            reel_count: if reels_of.len() <= i64::MAX as usize { reels_of.len() as i64 } else { i64::MAX },
            id,
        });
        i += 1;
    }
    Ok(out)
}

fn text_or_empty(o: Option<String>) -> (r: String)
    ensures
        r@ == (match o {
            Some(s) => s@,
            None => Seq::<char>::empty(),
        }),
{
    match o {
        Some(s) => s,
        None => String::new(),
    }
}

/// A take is flagged selected exactly when it is its shot's selected take.
pub open spec fn marks_selection(t: TakeView, selected_take_id: Option<String>) -> bool {
    t.selected == (selected_take_id matches Some(s) && s@ == t.id@)
}

/// Every take of every shot is flagged selected exactly when it is that
/// shot's selected take.
pub open spec fn selection_marked(d: BatchDetail) -> bool {
    forall|i: int, k: int|
        0 <= i < d.shots.len() && 0 <= k < d.shots@[i].takes.len() ==> marks_selection(
            #[trigger] d.shots@[i].takes@[k],
            d.shots@[i].selected_take_id,
        )
}

/// A take row `(id, take_number, asset_id, filename, rating)`, flagged
/// selected exactly when it is the shot's selected take.
pub fn take_from_row(r: &Row, selected_take_id: &Option<String>) -> (t: Result<TakeView>)
    ensures
        t matches Err(e) ==> e is Sqlite,
        t is Ok <==> {
            &&& crate::db::text_cell(r@, 0) is Some
            &&& crate::db::int_cell(r@, 1) is Some
            &&& crate::db::text_cell(r@, 2) is Some
            &&& crate::db::text_cell(r@, 3) is Some
            &&& crate::db::opt_int_cell(r@, 4) is Some
        },
        t matches Ok(x) ==> {
            &&& crate::db::text_cell(r@, 0) == Some(x.id@)
            &&& crate::db::int_cell(r@, 1) == Some(x.take_number)
            &&& crate::db::text_cell(r@, 2) == Some(x.asset_id@)
            &&& crate::db::text_cell(r@, 3) == Some(x.filename@)
            &&& crate::db::opt_int_cell(r@, 4) == Some(x.rating)
            &&& marks_selection(x, *selected_take_id)
        },
{
    let take_id = col_text(r, 0)?;
    let selected = match selected_take_id {
        Some(s) => str_eq(take_id.as_str(), s.as_str()),
        None => false,
    };
    let take_number = col_int(r, 1)?;
    let asset_id = col_text(r, 2)?;
    let filename = col_text(r, 3)?;
    let rating = col_opt_int(r, 4)?;
    Ok(TakeView { id: take_id, take_number, asset_id, filename, rating, selected })
}

fn shot_takes(conn: &rusqlite::Connection, shot_id: &str, selected_take_id: &Option<String>) -> (r: Result<
    Vec<TakeView>,
>)
    ensures
        r matches Err(e) ==> e is Sqlite,
        r matches Ok(v) ==> forall|k: int| 0 <= k < v.len() ==> marks_selection(#[trigger] v@[k], *selected_take_id),
        r matches Ok(v) ==> takes_in_order(v@),
{
    let rows = query(
        conn,
        "SELECT t.id, t.take_number, t.asset_id, a.filename, t.rating
         FROM takes t JOIN assets a ON a.id = t.asset_id
         WHERE t.shot_id = ?1 ORDER BY t.take_number",
        &crate::db::texts_write(&[shot_id]),
    )?;
    let keys = crate::order::int_keys(&rows, 1)?;
    let ord = crate::order::order_by_key(&keys);
    let mut takes: Vec<TakeView> = Vec::new();
    let mut i: usize = 0;
    while i < ord.len()
        invariant
            i <= ord.len(),
            crate::order::orders_by_key(keys@, ord@),
            keys.len() == rows.len(),
            forall|j: int| 0 <= j < rows.len() ==> crate::db::int_cell((#[trigger] rows@[j])@, 1) == Some(keys@[j]),
            takes.len() == i,
            forall|k: int| 0 <= k < takes.len() ==> marks_selection(#[trigger] takes@[k], *selected_take_id),
            forall|k: int| 0 <= k < takes.len() ==> (#[trigger] takes@[k]).take_number == keys@[ord@[k] as int],
        decreases ord.len() - i,
    {
        let row = &rows[ord[i]];
        assert(crate::db::int_cell(rows@[ord@[i as int] as int]@, 1) == Some(keys@[ord@[i as int] as int]));
        takes.push(take_from_row(row, selected_take_id)?);
        i += 1;
    }
    proof {
        assert forall|a: int, b: int| 0 <= a < b < takes.len() implies (#[trigger] takes@[a]).take_number
            <= (#[trigger] takes@[b]).take_number by {
            assert(keys@[ord@[a] as int] <= keys@[ord@[b] as int]);
        }
    }
    Ok(takes)
}

/// Takes in order of take number.
pub open spec fn takes_in_order(v: Seq<TakeView>) -> bool {
    forall|a: int, b: int| 0 <= a < b < v.len() ==> (#[trigger] v[a]).take_number <= (#[trigger] v[b]).take_number
}

/// Shots in order of position.
pub open spec fn shots_in_order(v: Seq<ShotView>) -> bool {
    forall|a: int, b: int| 0 <= a < b < v.len() ==> (#[trigger] v[a]).position <= (#[trigger] v[b]).position
}

/// Column `i` of a row as text, NULL (or anything else) read as "".
pub open spec fn text_or_empty_cell(row: Seq<crate::db::SqlValue>, i: int) -> Seq<char> {
    match crate::db::opt_text_cell(row, i) {
        Some(Some(s)) => s,
        _ => Seq::empty(),
    }
}

/// The block position of an own-text shot's row (NULL read as 0).
pub open spec fn own_block_pos(r: Seq<crate::db::SqlValue>) -> int {
    match crate::db::opt_int_cell(r, 9) {
        Some(Some(p)) => p as int,
        _ => 0,
    }
}

/// A shot row decodes: its own columns, and those of its component (code,
/// kind, text) or of its own block (position, kind, text).
pub open spec fn shot_row_ok(r: Seq<crate::db::SqlValue>) -> bool {
    &&& crate::db::text_cell(r, 0) is Some
    &&& crate::db::int_cell(r, 1) is Some
    &&& crate::db::text_cell(r, 2) is Some
    &&& crate::db::opt_text_cell(r, 3) is Some
    &&& crate::db::opt_text_cell(r, 4) is Some
    &&& (crate::db::opt_text_cell(r, 4) matches Some(Some(_)) ==> {
        &&& crate::db::opt_text_cell(r, 5) is Some
        &&& crate::db::opt_text_cell(r, 6) is Some
        &&& crate::db::opt_text_cell(r, 7) is Some
    })
    &&& (crate::db::opt_text_cell(r, 4) == Some(None::<Seq<char>>) ==> {
        &&& crate::db::opt_int_cell(r, 9) is Some
        &&& crate::db::opt_text_cell(r, 10) is Some
        &&& crate::db::opt_text_cell(r, 11) is Some
    })
}

/// A shot built from its row `(id, position, status, selected_take_id,
/// component_id, component code, kind, text, block reel, block position,
/// block kind, block text)`, the codes of the reels using its component, the
/// code of its own block's reel, and its takes. A component shot is keyed by
/// the component's code and used by those reels; an own-text shot is keyed
/// "{reel code}-S{position + 1, two digits}" and used by its reel alone.
pub fn build_shot(r: &Row, component_reels: Vec<String>, reel_code: String, takes: Vec<TakeView>) -> (s: Result<ShotView>)
    ensures
        s matches Err(e) ==> e is Sqlite,
        s is Ok <==> shot_row_ok(r@),
        s matches Ok(x) ==> {
            &&& crate::db::text_cell(r@, 0) == Some(x.id@)
            &&& crate::db::int_cell(r@, 1) == Some(x.position)
            &&& crate::db::text_cell(r@, 2) == Some(x.status@)
            &&& crate::db::opt_text_cell(r@, 3) == Some(crate::text::opt_view(x.selected_take_id))
            &&& x.takes == takes
            &&& (crate::db::opt_text_cell(r@, 4) matches Some(Some(_)) ==> {
                &&& x.clip_key@ == text_or_empty_cell(r@, 5)
                &&& x.kind@ == text_or_empty_cell(r@, 6)
                &&& x.text@ == text_or_empty_cell(r@, 7)
                &&& views(x.used_by@) == views(component_reels@)
            })
            &&& (crate::db::opt_text_cell(r@, 4) == Some(None::<Seq<char>>) ==> {
                &&& x.clip_key@ == block_clip_key(reel_code@, own_block_pos(r@))
                &&& x.kind@ == text_or_empty_cell(r@, 10)
                &&& x.text@ == text_or_empty_cell(r@, 11)
                &&& views(x.used_by@) == seq![reel_code@]
            })
        },
{
    let shot_id = col_text(r, 0)?;
    let position = col_int(r, 1)?;
    let status = col_text(r, 2)?;
    let selected_take_id = col_opt_text(r, 3)?;
    let component_id = col_opt_text(r, 4)?;
    let (clip_key, kind, text_v, used_by) = match &component_id {
        Some(_) => {
            let key = text_or_empty(col_opt_text(r, 5)?);
            let kind = text_or_empty(col_opt_text(r, 6)?);
            let t = text_or_empty(col_opt_text(r, 7)?);
            (key, kind, t, component_reels)
        },
        None => {
            let sb_pos = match col_opt_int(r, 9)? {
                Some(p) => p,
                None => 0,
            };
            let kind = text_or_empty(col_opt_text(r, 10)?);
            let t = text_or_empty(col_opt_text(r, 11)?);
            let key = clip_key_for_block(reel_code.as_str(), sb_pos);
            let mut used: Vec<String> = Vec::new();
            let ghost rc = reel_code@;
            used.push(reel_code);
            assert(views(used@) =~= seq![rc]);
            (key, kind, t, used)
        },
    };
    Ok(ShotView { id: shot_id, position, status, kind, clip_key, text: text_v, used_by, takes, selected_take_id })
}

/// The codes in column 0 of every row.
fn codes_of(rows: &Vec<Row>) -> (r: Result<Vec<String>>)
    ensures
        r matches Err(e) ==> e is Sqlite,
{
    let mut used: Vec<String> = Vec::new();
    let mut i: usize = 0;
    while i < rows.len()
        invariant
            i <= rows.len(),
        decreases rows.len() - i,
    {
        used.push(col_text(&rows[i], 0)?);
        i += 1;
    }
    Ok(used)
}

fn shot_from_row(conn: &rusqlite::Connection, r: &Row) -> (s: Result<ShotView>)
    ensures
        s matches Err(e) ==> e is Sqlite,
        s matches Ok(x) ==> forall|k: int| 0 <= k < x.takes.len() ==> marks_selection(#[trigger] x.takes@[k], x.selected_take_id),
        s matches Ok(x) ==> takes_in_order(x.takes@),
        s matches Ok(x) ==> {
            &&& crate::db::text_cell(r@, 0) == Some(x.id@)
            &&& crate::db::int_cell(r@, 1) == Some(x.position)
            &&& crate::db::text_cell(r@, 2) == Some(x.status@)
            &&& crate::db::opt_text_cell(r@, 3) == Some(crate::text::opt_view(x.selected_take_id))
            &&& (crate::db::opt_text_cell(r@, 4) matches Some(Some(_)) ==> {
                &&& x.clip_key@ == text_or_empty_cell(r@, 5)
                &&& x.kind@ == text_or_empty_cell(r@, 6)
                &&& x.text@ == text_or_empty_cell(r@, 7)
                &&& crate::order::strictly_sorted(views(x.used_by@))
            })
            &&& (crate::db::opt_text_cell(r@, 4) == Some(None::<Seq<char>>) ==> {
                &&& x.kind@ == text_or_empty_cell(r@, 10)
                &&& x.text@ == text_or_empty_cell(r@, 11)
                &&& exists|code: Seq<char>|
                    x.clip_key@ == block_clip_key(code, own_block_pos(r@)) && #[trigger] views(x.used_by@) == seq![code]
            })
        },
{
    let shot_id = col_text(r, 0)?;
    let selected_take_id = col_opt_text(r, 3)?;
    let component_id = col_opt_text(r, 4)?;
    let (component_reels, reel_code) = match &component_id {
        Some(cid) => {
            let rows = query(
                conn,
                "SELECT DISTINCT r.code FROM script_blocks sb JOIN reels r ON r.id = sb.reel_id
                 WHERE sb.component_id = ?1 ORDER BY r.code",
                &crate::db::texts_write(&[cid.as_str()]),
            )?;
            let codes = codes_of(&rows)?;
            (crate::order::sorted_distinct(&codes), String::new())
        },
        None => {
            let sb_reel = text_or_empty(col_opt_text(r, 8)?);
            let code_row = query_one(conn, "SELECT code FROM reels WHERE id = ?1", &crate::db::texts_write(&[sb_reel.as_str()]))?;
            (Vec::new(), col_text(&code_row, 0)?)
        },
    };
    let ghost used = views(component_reels@);
    let ghost code = reel_code@;
    let takes = shot_takes(conn, shot_id.as_str(), &selected_take_id)?;
    let x = build_shot(r, component_reels, reel_code, takes)?;
    proof {
        if crate::db::opt_text_cell(r@, 4) == Some(None::<Seq<char>>) {
            assert(views(x.used_by@) == seq![code]);
        }
    }
    Ok(x)
}

/// A batch with its shot list in shoot order: each shot's clip key, text,
/// the reels using it, and its takes.
pub fn detail(conn: &rusqlite::Connection, id: &str) -> (r: Result<BatchDetail>)
    ensures
        r matches Ok(d) ==> selection_marked(d),
        r matches Ok(d) ==> shots_in_order(d.shots@),
        r matches Ok(d) ==> forall|k: int| 0 <= k < d.shots.len() ==> takes_in_order((#[trigger] d.shots@[k]).takes@),
        !(r matches Err(CoreError::Invalid(_))),
        r matches Err(CoreError::NotFound(m)) ==> m@ == "batch "@ + id@,
{
    let head = match query_opt(
        conn,
        "SELECT id, code, name, shoot_date, status, notes FROM shoot_batches WHERE id = ?1",
        &crate::db::texts_write(&[id]),
    )? {
        Some(h) => h,
        None => return Err(not_found("batch ", id)),
    };
    let rows = query(
        conn,
        "SELECT s.id, s.position, s.status, s.selected_take_id,
                s.component_id, c.code, c.kind, c.text,
                sb.reel_id, sb.position, sb.kind, sb.text
         FROM shots s
         LEFT JOIN components c ON c.id = s.component_id
         LEFT JOIN script_blocks sb ON sb.id = s.script_block_id
         WHERE s.batch_id = ?1 ORDER BY s.position",
        &crate::db::texts_write(&[id]),
    )?;
    let keys = crate::order::int_keys(&rows, 1)?;
    let ord = crate::order::order_by_key(&keys);
    let mut shots: Vec<ShotView> = Vec::new();
    let mut i: usize = 0;
    while i < ord.len()
        invariant
            i <= ord.len(),
            crate::order::orders_by_key(keys@, ord@),
            keys.len() == rows.len(),
            forall|j: int| 0 <= j < rows.len() ==> crate::db::int_cell((#[trigger] rows@[j])@, 1) == Some(keys@[j]),
            shots.len() == i,
            forall|k: int| 0 <= k < shots.len() ==> (#[trigger] shots@[k]).position == keys@[ord@[k] as int],
            forall|k: int| 0 <= k < shots.len() ==> takes_in_order((#[trigger] shots@[k]).takes@),
            forall|j: int, k: int|
                0 <= j < shots.len() && 0 <= k < shots@[j].takes.len() ==> marks_selection(
                    #[trigger] shots@[j].takes@[k],
                    shots@[j].selected_take_id,
                ),
        decreases ord.len() - i,
    {
        assert(crate::db::int_cell(rows@[ord@[i as int] as int]@, 1) == Some(keys@[ord@[i as int] as int]));
        shots.push(shot_from_row(conn, &rows[ord[i]])?);
        i += 1;
    }
    proof {
        assert forall|a: int, b: int| 0 <= a < b < shots.len() implies (#[trigger] shots@[a]).position
            <= (#[trigger] shots@[b]).position by {
            assert(keys@[ord@[a] as int] <= keys@[ord@[b] as int]);
        }
    }
    batch_from_row(&head, shots)
}

/// A batch row `(id, code, name, shoot_date, status, notes)` with its shots.
pub fn batch_from_row(head: &Row, shots: Vec<ShotView>) -> (r: Result<BatchDetail>)
    ensures
        r matches Err(e) ==> e is Sqlite,
        r is Ok <==> {
            &&& crate::db::text_cell(head@, 0) is Some
            &&& crate::db::text_cell(head@, 1) is Some
            &&& crate::db::text_cell(head@, 2) is Some
            &&& crate::db::opt_text_cell(head@, 3) is Some
            &&& crate::db::text_cell(head@, 4) is Some
            &&& crate::db::opt_text_cell(head@, 5) is Some
        },
        r matches Ok(d) ==> {
            &&& crate::db::text_cell(head@, 0) == Some(d.id@)
            &&& crate::db::text_cell(head@, 1) == Some(d.code@)
            &&& crate::db::text_cell(head@, 2) == Some(d.name@)
            &&& crate::db::opt_text_cell(head@, 3) == Some(crate::text::opt_view(d.shoot_date))
            &&& crate::db::text_cell(head@, 4) == Some(d.status@)
            &&& crate::db::opt_text_cell(head@, 5) == Some(crate::text::opt_view(d.notes))
            &&& d.shots == shots
        },
{
    let id = col_text(head, 0)?;
    let code = col_text(head, 1)?;
    let name = col_text(head, 2)?;
    let shoot_date = col_opt_text(head, 3)?;
    let status = col_text(head, 4)?;
    let notes = col_opt_text(head, 5)?;
    Ok(BatchDetail { id, code, name, shoot_date, status, notes, shots })
}

/// Set a batch's status (planning, ready, shooting or done).
pub fn set_status(conn: &rusqlite::Connection, id: &str, status: &str) -> (r: Result<()>)
    ensures
        !batch_status_ok(status@) ==> (r matches Err(CoreError::Invalid(m)) && m@
            == "invalid batch status: "@ + status@),
        r matches Err(CoreError::Invalid(_)) ==> !batch_status_ok(status@),
{
    if !(str_eq(status, "planning") || str_eq(status, "ready") || str_eq(status, "shooting") || str_eq(status, "done")) {
        return Err(invalid_with("invalid batch status: ", status));
    }
    let changed = execute(
        conn,
        "UPDATE shoot_batches SET status = ?1 WHERE id = ?2",
        &crate::db::texts_write(&[status, id]),
    )?;
    if changed == 0 {
        return Err(not_found("batch ", id));
    }
    Ok(())
}

/// Set a shot's status (pending, recorded or skipped).
pub fn set_shot_status(conn: &rusqlite::Connection, shot_id: &str, status: &str) -> (r: Result<()>)
    ensures
        !shot_status_ok(status@) ==> (r matches Err(CoreError::Invalid(m)) && m@
            == "invalid shot status: "@ + status@),
        r matches Err(CoreError::Invalid(_)) ==> !shot_status_ok(status@),
{
    if !(str_eq(status, "pending") || str_eq(status, "recorded") || str_eq(status, "skipped")) {
        return Err(invalid_with("invalid shot status: ", status));
    }
    let changed = execute(
        conn,
        "UPDATE shots SET status = ?1 WHERE id = ?2",
        &crate::db::texts_write(&[status, shot_id]),
    )?;
    if changed == 0 {
        return Err(not_found("shot ", shot_id));
    }
    Ok(())
}

/// The parameters that make a take the selection of a shot (or the master
/// take of that shot's component): the take id, then the shot's (or the
/// component's) id.
pub fn selection_write(take_id: &str, owner_id: &str) -> (p: Vec<Param>)
    ensures
        crate::db::params_view(p@) == seq![crate::db::ParamView::Text(take_id@), crate::db::ParamView::Text(owner_id@)],
{
    let p = vec![text(take_id), text(owner_id)];
    assert(crate::db::params_view(p@) =~= seq![crate::db::ParamView::Text(take_id@), crate::db::ParamView::Text(owner_id@)]);
    p
}

/// Mark a take as the shot's selected take. Component shots also set the
/// component's master take (a component records once, reused everywhere).
/// Reels whose every block now has selected material advance to `shot`.
pub fn select_take(conn: &rusqlite::Connection, shot_id: &str, take_id: &str) -> (r: Result<()>)
    ensures
        r matches Err(CoreError::Invalid(m)) ==> m@ == "take does not belong to this shot"@
            || reels::refused_move(m@, "shot"@, false),
{
    let row = query_one(
        conn,
        "SELECT EXISTS(SELECT 1 FROM takes WHERE id = ?1 AND shot_id = ?2)",
        &crate::db::texts_write(&[take_id, shot_id]),
    )?;
    if !col_bool(&row, 0)? {
        return Err(invalid("take does not belong to this shot"));
    }
    execute(
        conn,
        "UPDATE shots SET selected_take_id = ?1, status = 'recorded' WHERE id = ?2",
        &selection_write(take_id, shot_id),
    )?;
    let crow = query_one(conn, "SELECT component_id FROM shots WHERE id = ?1", &crate::db::texts_write(&[shot_id]))?;
    if let Some(component_id) = col_opt_text(&crow, 0)? {
        execute(
            conn,
            "UPDATE components SET master_take_id = ?1 WHERE id = ?2",
            &selection_write(take_id, component_id.as_str()),
        )?;
    }
    sync_covered_reels(conn, shot_id)
}

/// A take rating is 1 to 5 stars, or none.
pub fn check_rating(rating: Option<i64>) -> (r: Result<()>)
    ensures
        r is Ok <==> rating_ok(rating),
        r matches Err(e) ==> (e matches CoreError::Invalid(m) && m@ == "rating must be 1–5"@),
{
    if let Some(x) = rating {
        if !(1 <= x && x <= 5) {
            return Err(invalid("rating must be 1–5"));
        }
    }
    Ok(())
}

/// The parameters of a take's rating: the rating (NULL to clear), take id.
pub fn rating_write(take_id: &str, rating: Option<i64>) -> (p: Vec<Param>)
    ensures
        crate::db::params_view(p@) == seq![crate::db::opt_int_view(rating), crate::db::ParamView::Text(take_id@)],
{
    let p = vec![opt_int(rating), text(take_id)];
    assert(crate::db::params_view(p@) =~= seq![crate::db::opt_int_view(rating), crate::db::ParamView::Text(take_id@)]);
    p
}

/// Rate a take 1–5 stars, or clear its rating.
pub fn set_take_rating(conn: &rusqlite::Connection, take_id: &str, rating: Option<i64>) -> (r: Result<()>)
    ensures
        !rating_ok(rating) ==> (r matches Err(CoreError::Invalid(m)) && m@ == "rating must be 1–5"@),
        r matches Err(CoreError::Invalid(_)) ==> !rating_ok(rating),
{
    check_rating(rating)?;
    let changed = execute(
        conn,
        "UPDATE takes SET rating = ?1 WHERE id = ?2",
        &rating_write(take_id, rating),
    )?;
    if changed == 0 {
        return Err(not_found("take ", take_id));
    }
    Ok(())
}

/// Distinct reels whose material appears in this batch.
pub fn reels_in_batch(conn: &rusqlite::Connection, batch_id: &str) -> (r: Result<Vec<String>>)
    ensures
        r matches Err(e) ==> e is Sqlite,
{
    let rows = query(
        conn,
        "SELECT DISTINCT r.id FROM shots s
         JOIN script_blocks sb ON (sb.component_id = s.component_id OR sb.id = s.script_block_id)
         JOIN reels r ON r.id = sb.reel_id
         WHERE s.batch_id = ?1",
        &crate::db::texts_write(&[batch_id]),
    )?;
    let mut ids: Vec<String> = Vec::new();
    let mut i: usize = 0;
    while i < rows.len()
        invariant
            i <= rows.len(),
        decreases rows.len() - i,
    {
        ids.push(col_text(&rows[i], 0)?);
        i += 1;
    }
    Ok(ids)
}

/// A reel's block is covered when its component has a master take, or (own
/// text) some shot for that block has a selected take. The check is looked up
/// by the block's own component, or the block's own id.
fn block_covered(conn: &rusqlite::Connection, block: &reels::BlockView) -> (r: Result<BlockCheck>)
    ensures
        r matches Err(e) ==> e is Sqlite,
        r matches Ok(c) ==> c.key@ == coverage_key(*block),
{
    match &block.component_id {
        Some(c) => {
            let covered = component_mastered(conn, c.as_str())?;
            Ok(BlockCheck { key: ShotKey::Component(owned(c.as_str())), covered })
        },
        None => {
            let row = query_one(
                conn,
                "SELECT EXISTS(SELECT 1 FROM shots WHERE script_block_id = ?1 AND selected_take_id IS NOT NULL)",
                &crate::db::texts_write(&[block.id.as_str()]),
            )?;
            let covered = col_bool(&row, 0)?;
            Ok(BlockCheck { key: ShotKey::Block(owned(block.id.as_str())), covered })
        },
    }
}

fn sync_covered_reels(conn: &rusqlite::Connection, shot_id: &str) -> (r: Result<()>)
    ensures
        r matches Err(CoreError::Invalid(m)) ==> reels::refused_move(m@, "shot"@, false),
{
    let rows = query(
        conn,
        "SELECT DISTINCT sb.reel_id FROM script_blocks sb
         JOIN shots s ON (sb.component_id = s.component_id OR sb.id = s.script_block_id)
         WHERE s.id = ?1",
        &crate::db::texts_write(&[shot_id]),
    )?;
    let mut i: usize = 0;
    while i < rows.len()
        invariant
            i <= rows.len(),
        decreases rows.len() - i,
    {
        let reel_id = col_text(&rows[i], 0)?;
        let detail = reels::get_detail(conn, reel_id.as_str())?;
        if str_eq(detail.status.as_str(), "shotlisted") {
            let checks = block_coverage(conn, &detail)?;
            let coverage = coverage_flags(&checks);
            if all_true(coverage.as_slice()) {
                proof {
                    reels::lemma_stage_name_parses(reels::Stage::Shot);
                }
                reels::set_status(conn, reel_id.as_str(), "shot", false)?;
            }
        }
        i += 1;
    }
    Ok(())
}

} // verus!
