//! Reels: the pipeline's spine. Each reel walks the status pipeline
//! idea → … → verified, owns an ordered script of blocks and a slug.

use vstd::prelude::*;

use crate::activity;
use crate::clock;
use crate::db::{Param, Row, SqlValue, col_int, col_opt_int, col_opt_text, col_text, execute, execute_batch, int_cell, opt_int, opt_int_cell, opt_text, opt_text_cell, query, query_one, query_opt, text, text_cell};
use crate::ids;
use crate::json::json_parse;
use crate::ranking::rank_order;
use crate::search;
use crate::text::{chars_of, is_blank, lemma_seq_lt_total, lemma_seq_lt_trans, lowercase, opt_view, owned, push_char, push_range, seq_lt, str_eq, str_lt, to_lower, trim, trimmed};
use crate::{CoreError, Result, invalid, invalid_with, not_found};

verus! {

// ── status pipeline ──────────────────────────────────────────────

/// A reel status: ten pipeline stages in order, then the two terminal states.
#[derive(PartialEq, Eq, Structural, Clone, Copy, Debug)]
pub enum Stage {
    Idea,
    Scripted,
    Shotlisted,
    Shot,
    Assembled,
    Editing,
    Edited,
    Scheduled,
    Posted,
    Verified,
    Archived,
    Killed,
}

/// The status name stored for a stage.
pub open spec fn stage_name_spec(st: Stage) -> Seq<char> {
    match st {
        Stage::Idea => "idea"@,
        Stage::Scripted => "scripted"@,
        Stage::Shotlisted => "shotlisted"@,
        Stage::Shot => "shot"@,
        Stage::Assembled => "assembled"@,
        Stage::Editing => "editing"@,
        Stage::Edited => "edited"@,
        Stage::Scheduled => "scheduled"@,
        Stage::Posted => "posted"@,
        Stage::Verified => "verified"@,
        Stage::Archived => "archived"@,
        Stage::Killed => "killed"@,
    }
}

/// The stage a status name denotes, if any.
pub open spec fn parse_stage_spec(s: Seq<char>) -> Option<Stage> {
    if s == "idea"@ {
        Some(Stage::Idea)
    } else if s == "scripted"@ {
        Some(Stage::Scripted)
    } else if s == "shotlisted"@ {
        Some(Stage::Shotlisted)
    } else if s == "shot"@ {
        Some(Stage::Shot)
    } else if s == "assembled"@ {
        Some(Stage::Assembled)
    } else if s == "editing"@ {
        Some(Stage::Editing)
    } else if s == "edited"@ {
        Some(Stage::Edited)
    } else if s == "scheduled"@ {
        Some(Stage::Scheduled)
    } else if s == "posted"@ {
        Some(Stage::Posted)
    } else if s == "verified"@ {
        Some(Stage::Verified)
    } else if s == "archived"@ {
        Some(Stage::Archived)
    } else if s == "killed"@ {
        Some(Stage::Killed)
    } else {
        None
    }
}

/// Position in the pipeline; `None` for the terminal states.
pub open spec fn pipeline_index(st: Stage) -> Option<int> {
    match st {
        Stage::Idea => Some(0),
        Stage::Scripted => Some(1),
        Stage::Shotlisted => Some(2),
        Stage::Shot => Some(3),
        Stage::Assembled => Some(4),
        Stage::Editing => Some(5),
        Stage::Edited => Some(6),
        Stage::Scheduled => Some(7),
        Stage::Posted => Some(8),
        Stage::Verified => Some(9),
        Stage::Archived => None,
        Stage::Killed => None,
    }
}

/// Archived and killed sit outside the pipeline.
pub open spec fn is_terminal(st: Stage) -> bool {
    st == Stage::Archived || st == Stage::Killed
}

/// Position in the pipeline of a status name (`STATUS_ORDER` lookup).
pub open spec fn status_rank(s: Seq<char>) -> Option<int> {
    match parse_stage_spec(s) {
        Some(st) => pipeline_index(st),
        None => None,
    }
}

/// Whether a reel may move from `current` to `new_status` (both differing
/// status names, `new_status` valid): with `overrule` always; otherwise when
/// either side is terminal, or both are pipeline stages one step apart.
pub open spec fn move_allowed_spec(current: Seq<char>, new_status: Seq<char>, overrule: bool) -> bool {
    ||| overrule
    ||| (match parse_stage_spec(new_status) {
        Some(t) => is_terminal(t),
        None => false,
    })
    ||| (match parse_stage_spec(current) {
        Some(c) => is_terminal(c),
        None => false,
    })
    ||| (match (status_rank(current), status_rank(new_status)) {
        (Some(f), Some(t)) => f - t == 1 || t - f == 1,
        _ => false,
    })
}

/// Every stage's name denotes that stage.
pub proof fn lemma_stage_name_parses(st: Stage)
    ensures
        parse_stage_spec(stage_name_spec(st)) == Some(st),
{
    reveal_strlit("idea");
    reveal_strlit("scripted");
    reveal_strlit("shotlisted");
    reveal_strlit("shot");
    reveal_strlit("assembled");
    reveal_strlit("editing");
    reveal_strlit("edited");
    reveal_strlit("scheduled");
    reveal_strlit("posted");
    reveal_strlit("verified");
    reveal_strlit("archived");
    reveal_strlit("killed");
    assert("idea"@.len() == 4 && "idea"@[0] == 'i');
    assert("scripted"@.len() == 8 && "scripted"@[0] == 's');
    assert("shotlisted"@.len() == 10 && "shotlisted"@[0] == 's');
    assert("shot"@.len() == 4 && "shot"@[0] == 's');
    assert("assembled"@.len() == 9 && "assembled"@[0] == 'a');
    assert("editing"@.len() == 7 && "editing"@[0] == 'e');
    assert("edited"@.len() == 6 && "edited"@[0] == 'e');
    assert("scheduled"@.len() == 9 && "scheduled"@[0] == 's');
    assert("posted"@.len() == 6 && "posted"@[0] == 'p');
    assert("verified"@.len() == 8 && "verified"@[0] == 'v');
    assert("archived"@.len() == 8 && "archived"@[0] == 'a');
    assert("killed"@.len() == 6 && "killed"@[0] == 'k');
}

/// The transition rule: without overrule a reel moves one stage along the
/// pipeline in either direction, or into or out of archived/killed; any other
/// move (skipping stages) is refused.
pub proof fn lemma_transition_rule(from: Stage, to: Stage)
    ensures
        move_allowed_spec(stage_name_spec(from), stage_name_spec(to), false) <==> (is_terminal(from)
            || is_terminal(to) || pipeline_index(from).unwrap() - pipeline_index(to).unwrap() == 1
            || pipeline_index(to).unwrap() - pipeline_index(from).unwrap() == 1),
        move_allowed_spec(stage_name_spec(from), stage_name_spec(to), true),
{
    lemma_stage_name_parses(from);
    lemma_stage_name_parses(to);
}

/// The stage a status name denotes, if any.
pub fn parse_stage(s: &str) -> (r: Option<Stage>)
    ensures
        r == parse_stage_spec(s@),
{
    if str_eq(s, "idea") {
        Some(Stage::Idea)
    } else if str_eq(s, "scripted") {
        Some(Stage::Scripted)
    } else if str_eq(s, "shotlisted") {
        Some(Stage::Shotlisted)
    } else if str_eq(s, "shot") {
        Some(Stage::Shot)
    } else if str_eq(s, "assembled") {
        Some(Stage::Assembled)
    } else if str_eq(s, "editing") {
        Some(Stage::Editing)
    } else if str_eq(s, "edited") {
        Some(Stage::Edited)
    } else if str_eq(s, "scheduled") {
        Some(Stage::Scheduled)
    } else if str_eq(s, "posted") {
        Some(Stage::Posted)
    } else if str_eq(s, "verified") {
        Some(Stage::Verified)
    } else if str_eq(s, "archived") {
        Some(Stage::Archived)
    } else if str_eq(s, "killed") {
        Some(Stage::Killed)
    } else {
        None
    }
}

/// The status name of a stage.
pub fn stage_name(st: Stage) -> (s: &'static str)
    ensures
        s@ == stage_name_spec(st),
{
    match st {
        Stage::Idea => "idea",
        Stage::Scripted => "scripted",
        Stage::Shotlisted => "shotlisted",
        Stage::Shot => "shot",
        Stage::Assembled => "assembled",
        Stage::Editing => "editing",
        Stage::Edited => "edited",
        Stage::Scheduled => "scheduled",
        Stage::Posted => "posted",
        Stage::Verified => "verified",
        Stage::Archived => "archived",
        Stage::Killed => "killed",
    }
}

/// Pipeline position of a stage; `None` for the terminal states.
pub fn stage_index(st: Stage) -> (r: Option<u8>)
    ensures
        r matches Some(i) ==> pipeline_index(st) == Some(i as int),
        r is None ==> pipeline_index(st) is None,
{
    match st {
        Stage::Idea => Some(0),
        Stage::Scripted => Some(1),
        Stage::Shotlisted => Some(2),
        Stage::Shot => Some(3),
        Stage::Assembled => Some(4),
        Stage::Editing => Some(5),
        Stage::Edited => Some(6),
        Stage::Scheduled => Some(7),
        Stage::Posted => Some(8),
        Stage::Verified => Some(9),
        Stage::Archived => None,
        Stage::Killed => None,
    }
}

/// Pipeline position of a status name; `None` for terminal or unknown names.
pub fn rank_of(s: &str) -> (r: Option<u8>)
    ensures
        r matches Some(i) ==> status_rank(s@) == Some(i as int),
        r is None ==> status_rank(s@) is None,
{
    match parse_stage(s) {
        Some(st) => stage_index(st),
        None => None,
    }
}

/// The transition rule of `set_status` without `overrule`: one step forward or
/// back in the pipeline, into archived/killed from anywhere, or out of
/// archived/killed to anywhere.
pub fn move_allowed(current: &str, new_status: &str, overrule: bool) -> (r: bool)
    ensures
        r == move_allowed_spec(current@, new_status@, overrule),
{
    if overrule {
        return true;
    }
    let terminal_new = match parse_stage(new_status) {
        Some(t) => t == Stage::Archived || t == Stage::Killed,
        None => false,
    };
    let terminal_cur = match parse_stage(current) {
        Some(c) => c == Stage::Archived || c == Stage::Killed,
        None => false,
    };
    if terminal_new || terminal_cur {
        return true;
    }
    match (rank_of(current), rank_of(new_status)) {
        (Some(f), Some(t)) => (f < t && t - f == 1) || (t < f && f - t == 1),
        _ => false,
    }
}

// ── slugs ────────────────────────────────────────────────────────

/// ASCII letters and digits (`char::is_ascii_alphanumeric`).
pub open spec fn is_ascii_alnum(c: char) -> bool {
    ('0' <= c <= '9') || ('a' <= c <= 'z') || ('A' <= c <= 'Z')
}

/// Left-to-right slug scan of `s`: ASCII alphanumerics are kept, and each run
/// of other characters after a kept one becomes a single '-'. The flag says
/// whether the output so far ends in a dash or is empty.
pub open spec fn slug_scan(s: Seq<char>) -> (Seq<char>, bool)
    decreases s.len(),
{
    if s.len() == 0 {
        (Seq::empty(), true)
    } else {
        let (acc, last_dash) = slug_scan(s.drop_last());
        let c = s.last();
        if is_ascii_alnum(c) {
            (acc.push(c), false)
        } else if !last_dash {
            (acc.push('-'), true)
        } else {
            (acc, last_dash)
        }
    }
}

/// `s` without leading and trailing `c` (`str::trim_matches`).
pub open spec fn trim_char(s: Seq<char>, c: char) -> Seq<char>
    decreases s.len(),
{
    if s.len() > 0 && s[0] == c {
        trim_char(s.drop_first(), c)
    } else if s.len() > 0 && s.last() == c {
        trim_char(s.drop_last(), c)
    } else {
        s
    }
}

/// The slug of an already lower-cased title; "reel" when nothing is left.
pub open spec fn slug_of(lower: Seq<char>) -> Seq<char> {
    let t = trim_char(slug_scan(lower).0, '-');
    if t.len() == 0 {
        seq!['r', 'e', 'e', 'l']
    } else {
        t
    }
}

/// What every slug looks like: non-empty, only ASCII letters, digits and
/// dashes, no dash at either end and never two dashes in a row.
pub open spec fn slug_shaped(s: Seq<char>) -> bool {
    &&& s.len() > 0
    &&& forall|j: int| 0 <= j < s.len() ==> is_ascii_alnum(#[trigger] s[j]) || s[j] == '-'
    &&& s[0] != '-'
    &&& s.last() != '-'
    &&& forall|j: int, k: int| 0 <= j && k == j + 1 && k < s.len() ==> !(#[trigger] s[j] == '-' && #[trigger] s[k] == '-')
}

/// The slug scan emits only alphanumerics and single dashes, never a leading
/// dash, and its flag tells whether it ends in a dash (or is empty).
proof fn lemma_slug_scan(s: Seq<char>)
    ensures
        ({
            let (acc, last_dash) = slug_scan(s);
            &&& forall|j: int| 0 <= j < acc.len() ==> is_ascii_alnum(#[trigger] acc[j]) || acc[j] == '-'
            &&& acc.len() > 0 ==> acc[0] != '-'
            &&& last_dash == (acc.len() == 0 || acc.last() == '-')
            &&& forall|j: int, k: int| 0 <= j && k == j + 1 && k < acc.len() ==> !(#[trigger] acc[j] == '-' && #[trigger] acc[k] == '-')
        }),
    decreases s.len(),
{
    if s.len() > 0 {
        lemma_slug_scan(s.drop_last());
        let (acc0, _d0) = slug_scan(s.drop_last());
        let (acc, _d) = slug_scan(s);
        assert forall|j: int| 0 <= j < acc.len() implies is_ascii_alnum(#[trigger] acc[j]) || acc[j] == '-' by {
            if j < acc0.len() {
                assert(acc[j] == acc0[j]);
            }
        }
        assert forall|j: int, k: int| 0 <= j && k == j + 1 && k < acc.len() implies !(#[trigger] acc[j] == '-' && #[trigger] acc[k] == '-') by {
            if k < acc0.len() {
                assert(acc[j] == acc0[j] && acc[k] == acc0[k]);
            } else if acc.len() > acc0.len() {
                assert(acc[j] == acc0[j]);
            }
        }
        if acc.len() > 0 && acc0.len() > 0 {
            assert(acc[0] == acc0[0]);
        }
    }
}

/// Every slug is non-empty, made of ASCII letters, digits and single dashes,
/// with no dash at either end.
pub proof fn lemma_slug_shape(lower: Seq<char>)
    ensures
        slug_shaped(slug_of(lower)),
{
    lemma_slug_scan(lower);
    let acc = slug_scan(lower).0;
    let t = if acc.len() > 0 && acc.last() == '-' { acc.drop_last() } else { acc };
    if acc.len() > 0 && acc.last() == '-' {
        assert(trim_char(acc, '-') == trim_char(acc.drop_last(), '-'));
        if t.len() > 0 {
            assert(t[0] == acc[0]);
            assert(t.last() == acc[acc.len() - 2]);
            assert(acc[acc.len() - 2] != '-');
        }
    }
    assert(trim_char(t, '-') == t);
    assert(trim_char(acc, '-') == t);
    if t.len() == 0 {
        let r = seq!['r', 'e', 'e', 'l'];
        assert forall|j: int| 0 <= j < r.len() implies is_ascii_alnum(#[trigger] r[j]) || r[j] == '-' by {
        }
    } else {
        assert forall|j: int| 0 <= j < t.len() implies is_ascii_alnum(#[trigger] t[j]) || t[j] == '-' by {
            assert(t[j] == acc[j]);
        }
        assert forall|j: int, k: int| 0 <= j && k == j + 1 && k < t.len() implies !(#[trigger] t[j] == '-' && #[trigger] t[k] == '-') by {
            assert(t[j] == acc[j] && t[k] == acc[k]);
        }
    }
}

proof fn lemma_trim_char_front(s: Seq<char>, c: char, i: int)
    requires
        0 <= i <= s.len(),
        forall|j: int| 0 <= j < i ==> #[trigger] s[j] == c,
    ensures
        trim_char(s, c) == trim_char(s.subrange(i, s.len() as int), c),
    decreases i,
{
    if i > 0 {
        assert(s.drop_first().subrange(i - 1, s.drop_first().len() as int) =~= s.subrange(
            i,
            s.len() as int,
        ));
        lemma_trim_char_front(s.drop_first(), c, i - 1);
    } else {
        assert(s.subrange(0, s.len() as int) =~= s);
    }
}

proof fn lemma_trim_char_back(s: Seq<char>, c: char, k: int)
    requires
        0 <= k <= s.len(),
        s.len() > 0 ==> s[0] != c,
        k > 0 || s.len() == 0,
        forall|j: int| k <= j < s.len() ==> #[trigger] s[j] == c,
    ensures
        trim_char(s, c) == trim_char(s.subrange(0, k), c),
    decreases s.len() - k,
{
    if k < s.len() {
        assert(s.drop_last().subrange(0, k) =~= s.subrange(0, k));
        lemma_trim_char_back(s.drop_last(), c, k);
    } else {
        assert(s.subrange(0, k) =~= s);
    }
}

/// The slug of an already lower-cased title: ASCII alphanumeric runs joined by
/// single dashes, "reel" when there are none.
pub fn slug_from_lowercase(lower: &str) -> (slug: String)
    ensures
        slug@ == slug_of(lower@),
{
    let v = chars_of(lower);
    let mut acc: Vec<char> = Vec::new();
    let mut last_dash = true;
    let mut i: usize = 0;
    while i < v.len()
        invariant
            i <= v.len(),
            v@ == lower@,
            (acc@, last_dash) == slug_scan(v@.take(i as int)),
        decreases v.len() - i,
    {
        let c = v[i];
        proof {
            assert(v@.take(i + 1).drop_last() =~= v@.take(i as int));
        }
        if ('0' <= c && c <= '9') || ('a' <= c && c <= 'z') || ('A' <= c && c <= 'Z') {
            acc.push(c);
            last_dash = false;
        } else if !last_dash {
            acc.push('-');
            last_dash = true;
        }
        i += 1;
    }
    assert(v@.take(v.len() as int) =~= v@);
    // trim dashes at both ends
    let mut a: usize = 0;
    while a < acc.len() && acc[a] == '-'
        invariant
            a <= acc.len(),
            forall|j: int| 0 <= j < a ==> #[trigger] acc@[j] == '-',
        decreases acc.len() - a,
    {
        a += 1;
    }
    proof {
        lemma_trim_char_front(acc@, '-', a as int);
    }
    let mut k: usize = acc.len();
    while k > a && acc[k - 1] == '-'
        invariant
            a <= k <= acc.len(),
            forall|j: int| k <= j < acc.len() ==> #[trigger] acc@[j] == '-',
        decreases k,
    {
        k -= 1;
    }
    let ghost rest = acc@.subrange(a as int, acc@.len() as int);
    proof {
        assert forall|j: int| k - a <= j < rest.len() implies #[trigger] rest[j] == '-' by {
            assert(rest[j] == acc@[a + j]);
        }
        if rest.len() > 0 {
            assert(rest[0] == acc@[a as int]);
        }
        if k == a && rest.len() > 0 {
            lemma_trim_char_front(rest, '-', rest.len() as int);
            assert(rest.subrange(rest.len() as int, rest.len() as int) =~= Seq::<char>::empty());
        } else {
            lemma_trim_char_back(rest, '-', k - a);
        }
        assert(rest.subrange(0, k - a) =~= acc@.subrange(a as int, k as int));
        let r2 = acc@.subrange(a as int, k as int);
        if r2.len() > 0 {
            assert(r2[0] == acc@[a as int]);
            assert(r2.last() == acc@[k - 1]);
        }
    }
    if k == a {
        let r = owned("reel");
        proof {
            reveal_strlit("reel");
            assert(r@ =~= seq!['r', 'e', 'e', 'l']);
        }
        return r;
    }
    let mut res = String::new();
    push_range(&mut res, &acc, a, k);
    assert(res@ =~= acc@.subrange(a as int, k as int));
    res
}

/// URL/file-name slug of a title: lower-cased, ASCII alphanumeric runs joined
/// by single dashes; "reel" when nothing is left.
pub fn slugify(title: &str) -> (slug: String)
    ensures
        slug@ == slug_of(lowercase(title@)),
{
    let lower = to_lower(title);
    slug_from_lowercase(lower.as_str())
}

// ── records ──────────────────────────────────────────────────────

/// One row of the reel board.
#[derive(Clone, Debug)]
pub struct ReelSummary {
    pub id: String,
    pub code: String,
    pub title: String,
    pub slug: String,
    pub pillar_id: Option<String>,
    pub status: String,
    pub target_date: Option<String>,
    pub block_count: i64,
    pub updated_at: String,
}

impl ReelSummary {
    /// A field-for-field copy.
    pub fn duplicate(&self) -> (r: ReelSummary)
        ensures
            r == *self,
    {
        ReelSummary {
            id: self.id.clone(),
            code: self.code.clone(),
            title: self.title.clone(),
            slug: self.slug.clone(),
            pillar_id: copy_opt(&self.pillar_id),
            status: self.status.clone(),
            target_date: copy_opt(&self.target_date),
            block_count: self.block_count,
            updated_at: self.updated_at.clone(),
        }
    }
}

/// A copy of an optional string.
pub fn copy_opt(o: &Option<String>) -> (r: Option<String>)
    ensures
        r == *o,
{
    match o {
        Some(s) => Some(s.clone()),
        None => None,
    }
}

/// One script block as the editor submits it.
#[derive(Clone, Debug)]
pub struct BlockInput {
    pub kind: String,
    pub component_id: Option<String>,
    pub text: Option<String>,
    pub est_seconds: Option<i64>,
}

/// One script block as stored, with its component resolved.
#[derive(Clone, Debug)]
pub struct BlockView {
    pub id: String,
    pub position: i64,
    pub kind: String,
    pub component_id: Option<String>,
    pub component_code: Option<String>,
    /// Resolved script text: the component's text when linked, else the block's own.
    pub text: String,
    pub est_seconds: Option<i64>,
}

/// A reel with its script.
#[derive(Clone, Debug)]
pub struct ReelDetail {
    pub id: String,
    pub code: String,
    pub title: String,
    pub slug: String,
    pub pillar_id: Option<String>,
    pub status: String,
    pub notes: Option<String>,
    pub target_date: Option<String>,
    pub created_at: String,
    pub updated_at: String,
    pub blocks: Vec<BlockView>,
}

/// A reel placed on the calendar.
#[derive(Clone, Debug)]
pub struct CalendarReel {
    pub id: String,
    pub code: String,
    pub title: String,
    pub status: String,
    pub pillar_id: Option<String>,
    pub target_date: String,
}

fn opt_string(o: Option<&str>) -> (r: Option<String>)
    ensures
        o is None <==> r is None,
        o matches Some(x) ==> r->0@ == x@,
{
    match o {
        Some(x) => Some(owned(x)),
        None => None,
    }
}

// ── script blocks ────────────────────────────────────────────────

/// The kinds a script block may have.
pub open spec fn block_kind_ok(kind: Seq<char>) -> bool {
    kind == "hook"@ || kind == "body"@ || kind == "cta"@ || kind == "segment"@
}

/// The block links a component (a non-empty component id).
pub open spec fn block_has_component(b: BlockInput) -> bool {
    b.component_id matches Some(c) && c@.len() > 0
}

/// The block carries its own (non-blank) text.
pub open spec fn block_has_text(b: BlockInput) -> bool {
    b.text matches Some(t) && trim(t@).len() > 0
}

/// Why a block is refused, if it is.
pub open spec fn block_error(b: BlockInput) -> Option<Seq<char>> {
    if !block_kind_ok(b.kind@) {
        Some("invalid block kind: "@ + b.kind@)
    } else if !block_has_component(b) && !block_has_text(b) {
        Some("every block needs either linked component or its own text"@)
    } else {
        None
    }
}

/// The first refusal among `blocks[from..]`.
pub open spec fn first_block_error(blocks: Seq<BlockInput>, from: int) -> Option<Seq<char>>
    decreases blocks.len() - from,
{
    if from < 0 || from >= blocks.len() {
        None
    } else {
        match block_error(blocks[from]) {
            Some(m) => Some(m),
            None => first_block_error(blocks, from + 1),
        }
    }
}

/// Check a script: every block has a known kind and either a linked component
/// or its own text. The first offending block's reason is the error.
pub fn validate_blocks(blocks: &[BlockInput]) -> (r: Result<()>)
    ensures
        r is Ok <==> first_block_error(blocks@, 0) is None,
        r matches Err(e) ==> (e matches CoreError::Invalid(m) && first_block_error(blocks@, 0)
            == Some(m@)),
{
    let mut i: usize = 0;
    while i < blocks.len()
        invariant
            i <= blocks.len(),
            first_block_error(blocks@, 0) == first_block_error(blocks@, i as int),
        decreases blocks.len() - i,
    {
        let b = &blocks[i];
        let k = b.kind.as_str();
        if !(str_eq(k, "hook") || str_eq(k, "body") || str_eq(k, "cta") || str_eq(k, "segment")) {
            return Err(invalid_with("invalid block kind: ", k));
        }
        let has_component = match &b.component_id {
            Some(c) => !c.as_str().is_empty(),
            None => false,
        };
        let has_text = match &b.text {
            Some(t) => !is_blank(t.as_str()),
            None => false,
        };
        if !has_component && !has_text {
            return Err(invalid("every block needs either linked component or its own text"));
        }
        assert(block_error(blocks@[i as int]) is None);
        i += 1;
    }
    Ok(())
}

/// What a valid block stores: its component id when one is linked (non-empty),
/// otherwise no component and its own text trimmed.
pub open spec fn stored_block(b: BlockInput) -> (Option<Seq<char>>, Option<Seq<char>>) {
    if block_has_component(b) {
        (Some(b.component_id->0@), None)
    } else {
        (None, match b.text {
            Some(t) => Some(trim(t@)),
            None => None,
        })
    }
}

/// The component id and own text a block is stored with.
pub fn stored_block_values(b: &BlockInput) -> (r: (Option<String>, Option<String>))
    ensures
        r.0 matches Some(c) ==> stored_block(*b).0 == Some(c@),
        r.0 is None ==> stored_block(*b).0 is None,
        r.1 matches Some(t) ==> stored_block(*b).1 == Some(t@),
        r.1 is None ==> stored_block(*b).1 is None,
{
    let component = match &b.component_id {
        Some(c) => if c.as_str().is_empty() {
            None
        } else {
            Some(owned(c.as_str()))
        },
        None => None,
    };
    if component.is_some() {
        (component, None)
    } else {
        let own = match &b.text {
            Some(t) => Some(trimmed(t.as_str())),
            None => None,
        };
        (None, own)
    }
}

// ── search text ──────────────────────────────────────────────────

/// What a reel is findable by: its title, its notes, then every block's
/// resolved text, space separated.
pub open spec fn reel_search_text(title: Seq<char>, notes: Option<Seq<char>>, texts: Seq<Seq<char>>) -> Seq<char>
    decreases texts.len(),
{
    if texts.len() == 0 {
        match notes {
            Some(n) => title + seq![' '] + n,
            None => title,
        }
    } else {
        reel_search_text(title, notes, texts.drop_last()) + seq![' '] + texts.last()
    }
}

/// The resolved texts of a reel's blocks.
pub open spec fn block_texts(blocks: Seq<BlockView>) -> Seq<Seq<char>> {
    blocks.map_values(|b: BlockView| b.text@)
}

/// The search-index text of a reel.
pub fn search_text(detail: &ReelDetail) -> (content: String)
    ensures
        content@ == reel_search_text(detail.title@, opt_view(detail.notes), block_texts(detail.blocks@)),
{
    let ghost notes_view = opt_view(detail.notes);
    let mut content = String::from_str(detail.title.as_str());
    if let Some(notes) = &detail.notes {
        push_char(&mut content, ' ');
        content.append(notes.as_str());
    }
    assert(content@ =~= reel_search_text(detail.title@, notes_view, Seq::empty()));
    let mut i: usize = 0;
    while i < detail.blocks.len()
        invariant
            i <= detail.blocks.len(),
            content@ == reel_search_text(
                detail.title@,
                notes_view,
                block_texts(detail.blocks@).take(i as int),
            ),
        decreases detail.blocks.len() - i,
    {
        push_char(&mut content, ' ');
        content.append(detail.blocks[i].text.as_str());
        proof {
            let t = block_texts(detail.blocks@).take(i + 1);
            assert(t.drop_last() =~= block_texts(detail.blocks@).take(i as int));
            assert(t.last() == detail.blocks@[i as int].text@);
        }
        i += 1;
    }
    assert(block_texts(detail.blocks@).take(detail.blocks.len() as int) =~= block_texts(
        detail.blocks@,
    ));
    content
}

// ── board filters ────────────────────────────────────────────────

/// Mid-pipeline statuses: scripted through edited.
pub open spec fn is_mid_pipeline(status: Seq<char>) -> bool {
    status == "scripted"@ || status == "shotlisted"@ || status == "shot"@ || status == "assembled"@
        || status == "editing"@ || status == "edited"@
}

/// Whether a status is mid-pipeline (scripted through edited).
pub fn mid_pipeline(status: &str) -> (b: bool)
    ensures
        b == is_mid_pipeline(status@),
{
    str_eq(status, "scripted") || str_eq(status, "shotlisted") || str_eq(status, "shot") || str_eq(
        status,
        "assembled",
    ) || str_eq(status, "editing") || str_eq(status, "edited")
}

/// A reel belongs in the "to plan" tray: no target date and not yet out.
pub open spec fn needs_planning(target_date: Option<String>, status: Seq<char>) -> bool {
    target_date is None && !(status == "posted"@ || status == "verified"@)
}

/// Keep the reels that need planning, in board order.
pub fn select_unscheduled(all: Vec<ReelSummary>) -> (r: Vec<ReelSummary>)
    ensures
        r@ == all@.filter(|s: ReelSummary| needs_planning(s.target_date, s.status@)),
{
    let mut r: Vec<ReelSummary> = Vec::new();
    let mut i: usize = 0;
    while i < all.len()
        invariant
            i <= all.len(),
            r@ == all@.take(i as int).filter(|s: ReelSummary| needs_planning(s.target_date, s.status@)),
        decreases all.len() - i,
    {
        let s = &all[i];
        proof {
            reveal_with_fuel(Seq::<_>::filter, 1);
            assert(all@.take(i + 1).drop_last() =~= all@.take(i as int));
            assert(all@.take(i + 1).last() == all@[i as int]);
        }
        if s.target_date.is_none() && !(str_eq(s.status.as_str(), "posted") || str_eq(
            s.status.as_str(),
            "verified",
        )) {
            r.push(s.duplicate());
        }
        i += 1;
    }
    assert(all@.take(all.len() as int) =~= all@);
    r
}

/// A reel is stuck: mid-pipeline and untouched since before `cutoff`.
pub open spec fn is_stuck(status: Seq<char>, updated_at: Seq<char>, cutoff: Seq<char>) -> bool {
    is_mid_pipeline(status) && seq_lt(updated_at, cutoff)
}

/// `order` lists exactly the indices `i < n` satisfying `keep`, each once,
/// sorted by `keys` (oldest first) with ties in index order — the result of a
/// stable sort of the kept indices.
pub open spec fn stable_sorted_selection(
    order: Seq<usize>,
    keep: spec_fn(int) -> bool,
    keys: Seq<Seq<char>>,
) -> bool {
    &&& forall|k: int| 0 <= k < order.len() ==> order[k] < keys.len() && keep(order[k] as int)
    &&& forall|i: int| 0 <= i < keys.len() && #[trigger] keep(i) ==> order.contains(i as usize)
    &&& sorted_stably(order, keys)
}

/// `order` is sorted by `keys`, ties in increasing index order.
pub open spec fn sorted_stably(order: Seq<usize>, keys: Seq<Seq<char>>) -> bool {
    forall|a: int, b: int|
        0 <= a < b < order.len() ==> !seq_lt(keys[order[b] as int], keys[order[a] as int]) && (
        keys[order[a] as int] == keys[order[b] as int] ==> order[a] < order[b])
}

/// The stuck reels of a board, oldest first (stable).
pub fn stuck_order(statuses: &Vec<String>, updated: &Vec<String>, cutoff: &str) -> (order: Vec<usize>)
    requires
        statuses.len() == updated.len(),
    ensures
        stable_sorted_selection(
            order@,
            |i: int| is_stuck(statuses@[i]@, updated@[i]@, cutoff@),
            updated@.map_values(|s: String| s@),
        ),
{
    let ghost keys = updated@.map_values(|s: String| s@);
    let ghost keep = |i: int| is_stuck(statuses@[i]@, updated@[i]@, cutoff@);
    let mut order: Vec<usize> = Vec::new();
    let mut i: usize = 0;
    while i < statuses.len()
        invariant
            statuses.len() == updated.len(),
            i <= statuses.len(),
            keys == updated@.map_values(|s: String| s@),
            keep == (|i: int| is_stuck(statuses@[i]@, updated@[i]@, cutoff@)),
            forall|k: int| 0 <= k < order.len() ==> order@[k] < i && keep(order@[k] as int),
            forall|j: int| 0 <= j < i && #[trigger] keep(j) ==> order@.contains(j as usize),
            sorted_stably(order@, keys),
        decreases statuses.len() - i,
    {
        assert(keys[i as int] == updated@[i as int]@);
        if mid_pipeline(statuses[i].as_str()) && str_lt(updated[i].as_str(), cutoff) {
            // insert after every kept index whose key is not greater
            let mut p: usize = order.len();
            while p > 0 && str_lt(updated[i].as_str(), updated[order[p - 1]].as_str())
                invariant
                    statuses.len() == updated.len(),
                    i < statuses.len(),
                    p <= order.len(),
                    keys == updated@.map_values(|s: String| s@),
                    forall|k: int| 0 <= k < order.len() ==> order@[k] < i,
                    forall|k: int| p <= k < order.len() ==> seq_lt(keys[i as int], keys[order@[k] as int]),
                decreases p,
            {
                assert(keys[order@[p - 1] as int] == updated@[order@[p - 1] as int]@);
                assert(keys[i as int] == updated@[i as int]@);
                p -= 1;
            }
            proof {
                if p > 0 {
                    assert(keys[order@[p - 1] as int] == updated@[order@[p - 1] as int]@);
                    // keys[order[p-1]] <= keys[i]
                }
            }
            let ghost before = order@;
            order.insert(p, i);
            proof {
                assert(order@ =~= before.subrange(0, p as int).push(i).add(before.subrange(p as int, before.len() as int)));
                assert(sorted_stably(before, keys));
                assert forall|a: int, b: int|
                    0 <= a < b < order.len() implies !seq_lt(keys[order@[b] as int], keys[order@[a] as int])
                        && (keys[order@[a] as int] == keys[order@[b] as int] ==> order@[a] < order@[b]) by {
                    let ka = keys[order@[a] as int];
                    let kb = keys[order@[b] as int];
                    lemma_seq_lt_total(ka, kb);
                    if a < p && b < p {
                        assert(order@[a] == before[a] && order@[b] == before[b]);
                    } else if a < p && b == p {
                        assert(order@[a] == before[a]);
                        // before[a] <= before[p-1] <= i's key
                        if a < p - 1 {
                            lemma_seq_lt_total(keys[before[a] as int], keys[before[p - 1] as int]);
                            if seq_lt(keys[i as int], ka) {
                                if seq_lt(ka, keys[before[p - 1] as int]) {
                                    lemma_seq_lt_trans(keys[i as int], ka, keys[before[p - 1] as int]);
                                }
                            }
                        }
                    } else if a < p && b > p {
                        assert(order@[a] == before[a] && order@[b] == before[b - 1]);
                    } else if a == p {
                        assert(order@[b] == before[b - 1]);
                        lemma_seq_lt_total(keys[i as int], kb);
                    } else {
                        assert(order@[a] == before[a - 1] && order@[b] == before[b - 1]);
                    }
                }
                assert(sorted_stably(order@, keys));
                assert forall|j: int| 0 <= j < i + 1 && #[trigger] keep(j) implies order@.contains(j as usize) by {
                    if j == i {
                        assert(order@[p as int] == i);
                    } else {
                        let k = choose|k: int| 0 <= k < before.len() && before[k] == j as usize;
                        if k < p {
                            assert(order@[k] == before[k]);
                        } else {
                            assert(order@[k + 1] == before[k]);
                        }
                    }
                }
            }
        }
        i += 1;
    }
    order
}

// ── database operations ──────────────────────────────────────────

/// Create a reel in `idea` with the next `R####` code and a slug of its title
/// (required, stored trimmed).
pub fn create(conn: &rusqlite::Connection, title: &str, pillar_id: Option<&str>) -> (r: Result<ReelDetail>)
    ensures
        trim(title@).len() == 0 ==> (r matches Err(CoreError::Invalid(m)) && m@
            == "reel title is required"@),
        r matches Err(CoreError::Invalid(_)) ==> trim(title@).len() == 0,
{
    if is_blank(title) {
        return Err(invalid("reel title is required"));
    }
    let code = ids::next_code(conn, "R", 4)?;
    let id = ids::new_id();
    execute(
        conn,
        "INSERT INTO reels (id, code, title, slug, pillar_id, status, created_at, updated_at)
         VALUES (?1, ?2, ?3, ?4, ?5, 'idea', ?6, ?6)",
        &reel_insert_write(id.as_str(), code.as_str(), title, pillar_id, ids::now_iso()),
    )?;
    activity::log(conn, "reel", code.as_str(), "created", None)?;
    reindex(conn, id.as_str())?;
    get_detail(conn, id.as_str())
}

/// Rename a reel (title required, stored trimmed, slug follows) and replace
/// its notes and pillar.
pub fn update_meta(
    conn: &rusqlite::Connection,
    id: &str,
    title: &str,
    notes: Option<&str>,
    pillar_id: Option<&str>,
) -> (r: Result<()>)
    ensures
        trim(title@).len() == 0 ==> (r matches Err(CoreError::Invalid(m)) && m@
            == "reel title is required"@),
        r matches Err(CoreError::Invalid(_)) ==> trim(title@).len() == 0,
{
    if is_blank(title) {
        return Err(invalid("reel title is required"));
    }
    let changed = execute(
        conn,
        "UPDATE reels SET title = ?1, slug = ?2, notes = ?3, pillar_id = ?4, updated_at = ?5
         WHERE id = ?6",
        &reel_meta_write(id, title, notes, pillar_id, ids::now_iso()),
    )?;
    if changed == 0 {
        return Err(not_found("reel ", id));
    }
    reindex(conn, id)
}

/// The parameters of a new reel: id, code, the title trimmed, its slug,
/// pillar, creation time.
pub fn reel_insert_write(id: &str, code: &str, title: &str, pillar_id: Option<&str>, now: String) -> (p: Vec<Param>)
    ensures
        crate::db::params_view(p@) == seq![
            crate::db::ParamView::Text(id@),
            crate::db::ParamView::Text(code@),
            crate::db::ParamView::Text(trim(title@)),
            crate::db::ParamView::Text(slug_of(lowercase(trim(title@)))),
            crate::db::opt_text_view(crate::text::opt_view_str(pillar_id)),
            crate::db::ParamView::Text(now@),
        ],
{
    let ghost n = now@;
    let t = trimmed(title);
    let slug = slugify(t.as_str());
    let p = vec![text(id), text(code), Param::Text(t), Param::Text(slug), opt_text(pillar_id), Param::Text(now)];
    assert(crate::db::params_view(p@) =~= seq![
        crate::db::ParamView::Text(id@),
        crate::db::ParamView::Text(code@),
        crate::db::ParamView::Text(trim(title@)),
        crate::db::ParamView::Text(slug_of(lowercase(trim(title@)))),
        crate::db::opt_text_view(crate::text::opt_view_str(pillar_id)),
        crate::db::ParamView::Text(n),
    ]);
    p
}

/// The parameters of a reel's new title and facts: the title trimmed, its
/// slug, notes, pillar, the time of the change, id.
pub fn reel_meta_write(id: &str, title: &str, notes: Option<&str>, pillar_id: Option<&str>, now: String) -> (p: Vec<Param>)
    ensures
        crate::db::params_view(p@) == seq![
            crate::db::ParamView::Text(trim(title@)),
            crate::db::ParamView::Text(slug_of(lowercase(trim(title@)))),
            crate::db::opt_text_view(crate::text::opt_view_str(notes)),
            crate::db::opt_text_view(crate::text::opt_view_str(pillar_id)),
            crate::db::ParamView::Text(now@),
            crate::db::ParamView::Text(id@),
        ],
{
    let ghost n = now@;
    let t = trimmed(title);
    let slug = slugify(t.as_str());
    let p = vec![Param::Text(t), Param::Text(slug), opt_text(notes), opt_text(pillar_id), Param::Text(now), text(id)];
    assert(crate::db::params_view(p@) =~= seq![
        crate::db::ParamView::Text(trim(title@)),
        crate::db::ParamView::Text(slug_of(lowercase(trim(title@)))),
        crate::db::opt_text_view(crate::text::opt_view_str(notes)),
        crate::db::opt_text_view(crate::text::opt_view_str(pillar_id)),
        crate::db::ParamView::Text(n),
        crate::db::ParamView::Text(id@),
    ]);
    p
}

/// The parameters that touch a reel after its script is written: the time,
/// the number of blocks (an `idea` with blocks becomes `scripted`; a count
/// beyond `i64::MAX` is bound as `i64::MAX`), the id.
pub fn script_touch_write(reel_id: &str, n_blocks: usize, now: String) -> (p: Vec<Param>)
    ensures
        crate::db::params_view(p@) == seq![
            crate::db::ParamView::Text(now@),
            crate::db::ParamView::Int(if n_blocks <= i64::MAX { n_blocks as i64 } else { i64::MAX }),
            crate::db::ParamView::Text(reel_id@),
        ],
{
    let ghost nw = now@;
    let wide = n_blocks as u64;
    let n: i64 = if wide <= 0x7fff_ffff_ffff_ffff {
        wide as i64
    } else {
        0x7fff_ffff_ffff_ffff
    };
    let p = vec![Param::Text(now), Param::Int(n), text(reel_id)];
    assert(crate::db::params_view(p@) =~= seq![
        crate::db::ParamView::Text(nw),
        crate::db::ParamView::Int(if n_blocks <= i64::MAX { n_blocks as i64 } else { i64::MAX }),
        crate::db::ParamView::Text(reel_id@),
    ]);
    p
}

/// The parameters of a stored script block: id, reel, position, kind, then
/// the component and own text as `stored_block` gives them, and the estimate.
pub fn block_insert_write(id: String, reel_id: &str, position: i64, b: &BlockInput) -> (p: Vec<Param>)
    ensures
        crate::db::params_view(p@) == seq![
            crate::db::ParamView::Text(id@),
            crate::db::ParamView::Text(reel_id@),
            crate::db::ParamView::Int(position),
            crate::db::ParamView::Text(b.kind@),
            crate::db::opt_text_view(stored_block(*b).0),
            crate::db::opt_text_view(stored_block(*b).1),
            crate::db::opt_int_view(b.est_seconds),
        ],
{
    let ghost i = id@;
    let (component_id, own_text) = stored_block_values(b);
    let component_param = match component_id {
        Some(c) => Param::Text(c),
        None => Param::Null,
    };
    let text_param = match own_text {
        Some(t) => Param::Text(t),
        None => Param::Null,
    };
    let p = vec![
        Param::Text(id),
        text(reel_id),
        Param::Int(position),
        text(b.kind.as_str()),
        component_param,
        text_param,
        opt_int(b.est_seconds),
    ];
    assert(crate::db::params_view(p@) =~= seq![
        crate::db::ParamView::Text(i),
        crate::db::ParamView::Text(reel_id@),
        crate::db::ParamView::Int(position),
        crate::db::ParamView::Text(b.kind@),
        crate::db::opt_text_view(stored_block(*b).0),
        crate::db::opt_text_view(stored_block(*b).1),
        crate::db::opt_int_view(b.est_seconds),
    ]);
    p
}

fn write_blocks(conn: &rusqlite::Connection, reel_id: &str, blocks: &[BlockInput]) -> (r: Result<()>)
    ensures
        r matches Err(e) ==> e is Sqlite,
{
    execute(conn, "DELETE FROM script_blocks WHERE reel_id = ?1", &crate::db::texts_write(&[reel_id]))?;
    let mut position: usize = 0;
    while position < blocks.len()
        invariant
            position <= blocks.len(),
        decreases blocks.len() - position,
    {
        execute(
            conn,
            "INSERT INTO script_blocks (id, reel_id, position, kind, component_id, text, est_seconds)
             VALUES (?1, ?2, ?3, ?4, ?5, ?6, ?7)",
            &block_insert_write(ids::new_id(), reel_id, position as i64, &blocks[position]),
        )?;
        position += 1;
    }
    execute(
        conn,
        "UPDATE reels SET updated_at = ?1,
           status = CASE WHEN status = 'idea' AND ?2 > 0 THEN 'scripted' ELSE status END
         WHERE id = ?3",
        &script_touch_write(reel_id, blocks.len(), ids::now_iso()),
    )?;
    Ok(())
}

/// Replace the reel's script blocks (ordered). A reel still in `idea` with a
/// non-empty script auto-advances to `scripted`. The whole script is refused,
/// before anything is written, when any block is invalid.
pub fn set_blocks(conn: &rusqlite::Connection, reel_id: &str, blocks: &[BlockInput]) -> (r: Result<()>)
    requires
        blocks.len() <= i64::MAX,
    ensures
        first_block_error(blocks@, 0) matches Some(m) ==> (r matches Err(CoreError::Invalid(e))
            && e@ == m),
        r matches Err(CoreError::Invalid(_)) ==> first_block_error(blocks@, 0) is Some,
{
    validate_blocks(blocks)?;
    execute_batch(conn, "BEGIN DEFERRED")?;
    match write_blocks(conn, reel_id, blocks) {
        Ok(()) => {},
        Err(e) => {
            let _ = execute_batch(conn, "ROLLBACK");
            return Err(e);
        },
    }
    execute_batch(conn, "COMMIT")?;
    reindex(conn, reel_id)
}

/// `m` is the refusal of a move from some status the transition rule does
/// not allow to `new_status`.
pub open spec fn refused_move(m: Seq<char>, new_status: Seq<char>, overrule: bool) -> bool {
    exists|cur: Seq<char>|
        !move_allowed_spec(cur, new_status, overrule) && m == "moving "@ + cur + " → "@ + new_status
            + " skips pipeline stages; pass overrule to force it"@
}

/// The `status:` action recorded for a move.
pub open spec fn status_action(current: Seq<char>, new_status: Seq<char>) -> Seq<char> {
    "status:"@ + current + "→"@ + new_status
}

/// Move a reel to `new_status`. Legal without `overrule`: one step forward/back
/// in the pipeline, into archived/killed from anywhere, or out of
/// archived/killed to anywhere. Moving to the current status does nothing.
/// Every change is logged (with the overrule flag when given).
/// The refusal of a move that skips pipeline stages.
pub open spec fn refused_move_msg(current: Seq<char>, new_status: Seq<char>) -> Seq<char> {
    "moving "@ + current + " → "@ + new_status + " skips pipeline stages; pass overrule to force it"@
}

/// Decide a status change from the reel's stored status: `Ok(false)` when it
/// is already there (nothing is written), `Ok(true)` when the move is allowed
/// (the status is written), else the refusal.
pub fn decide_status_move(current: &str, new_status: &str, overrule: bool) -> (r: Result<bool>)
    ensures
        current@ == new_status@ ==> r matches Ok(false),
        current@ != new_status@ && move_allowed_spec(current@, new_status@, overrule) ==> r matches Ok(true),
        current@ != new_status@ && !move_allowed_spec(current@, new_status@, overrule) ==> (r matches Err(
            CoreError::Invalid(m),
        ) && m@ == refused_move_msg(current@, new_status@)),
{
    if str_eq(current, new_status) {
        return Ok(false);
    }
    if !move_allowed(current, new_status, overrule) {
        let mut m = String::from_str("moving ");
        m.append(current);
        m.append(" → ");
        m.append(new_status);
        m.append(" skips pipeline stages; pass overrule to force it");
        return Err(CoreError::Invalid(m));
    }
    Ok(true)
}

/// The parameters of `UPDATE reels SET status = ?1, updated_at = ?2 WHERE id = ?3`.
pub fn status_write(id: &str, new_status: &str, now: String) -> (p: Vec<Param>)
    ensures
        crate::db::params_view(p@) == seq![
            crate::db::ParamView::Text(new_status@),
            crate::db::ParamView::Text(now@),
            crate::db::ParamView::Text(id@),
        ],
{
    let p = vec![text(new_status), Param::Text(now), text(id)];
    assert(crate::db::params_view(p@) =~= seq![
        crate::db::ParamView::Text(new_status@),
        crate::db::ParamView::Text(now@),
        crate::db::ParamView::Text(id@),
    ]);
    p
}

pub fn set_status(conn: &rusqlite::Connection, id: &str, new_status: &str, overrule: bool) -> (r:
    Result<()>)
    ensures
        parse_stage_spec(new_status@) is None ==> (r matches Err(CoreError::Invalid(m)) && m@
            == "invalid status: "@ + new_status@),
        overrule && parse_stage_spec(new_status@) is Some ==> !(r is Err && r->Err_0 is Invalid),
        r matches Err(CoreError::Invalid(m)) ==> (parse_stage_spec(new_status@) is None && m@
            == "invalid status: "@ + new_status@) || refused_move(m@, new_status@, overrule),
{
    if parse_stage(new_status).is_none() {
        return Err(invalid_with("invalid status: ", new_status));
    }
    let row = match query_opt(conn, "SELECT status FROM reels WHERE id = ?1", &crate::db::texts_write(&[id]))? {
        Some(r) => r,
        None => return Err(not_found("reel ", id)),
    };
    let current = col_text(&row, 0)?;
    if !decide_status_move(current.as_str(), new_status, overrule)? {
        return Ok(());
    }
    execute(
        conn,
        "UPDATE reels SET status = ?1, updated_at = ?2 WHERE id = ?3",
        &status_write(id, new_status, ids::now_iso()),
    )?;
    let code_row = query_one(conn, "SELECT code FROM reels WHERE id = ?1", &crate::db::texts_write(&[id]))?;
    let code = col_text(&code_row, 0)?;
    let mut action = String::from_str("status:");
    action.append(current.as_str());
    action.append("→");
    action.append(new_status);
    let detail = if overrule {
        json_parse("{\"overrule\":true}")
    } else {
        None
    };
    let detail_ref = match &detail {
        Some(d) => Some(d),
        None => None,
    };
    activity::log(conn, "reel", code.as_str(), action.as_str(), detail_ref)
}

/// A target date must be a real calendar date written exactly "YYYY-MM-DD":
/// chrono parses it and renders it back unchanged.
pub open spec fn strict_date(d: Seq<char>) -> bool {
    clock::date_roundtrip(d) == Some(d)
}

/// The parameters of a target-date update: the date (NULL to clear), the
/// time of the change, the reel id.
pub fn target_date_write(id: &str, date: Option<&str>, now: String) -> (p: Vec<Param>)
    ensures
        crate::db::params_view(p@) == seq![
            crate::db::opt_text_view(crate::text::opt_view_str(date)),
            crate::db::ParamView::Text(now@),
            crate::db::ParamView::Text(id@),
        ],
{
    let ghost n = now@;
    let p = vec![opt_text(date), Param::Text(now), text(id)];
    assert(crate::db::params_view(p@) =~= seq![
        crate::db::opt_text_view(crate::text::opt_view_str(date)),
        crate::db::ParamView::Text(n),
        crate::db::ParamView::Text(id@),
    ]);
    p
}

/// Set or clear a reel's calendar target date.
pub fn set_target_date(conn: &rusqlite::Connection, id: &str, date: Option<&str>) -> (r: Result<()>)
    ensures
        date is Some && !strict_date(date->0@) ==> (r matches Err(CoreError::Invalid(m)) && m@
            == "invalid date (want YYYY-MM-DD): "@ + date->0@),
        r matches Err(CoreError::Invalid(_)) ==> (date is Some && !strict_date(date->0@)),
{
    if let Some(d) = date {
        let ok = match clock::roundtrip_date(d) {
            Some(back) => str_eq(back.as_str(), d),
            None => false,
        };
        if !ok {
            return Err(invalid_with("invalid date (want YYYY-MM-DD): ", d));
        }
    }
    let changed = execute(
        conn,
        "UPDATE reels SET target_date = ?1, updated_at = ?2 WHERE id = ?3",
        &target_date_write(id, date, ids::now_iso()),
    )?;
    if changed == 0 {
        return Err(not_found("reel ", id));
    }
    Ok(())
}

/// A row decodes as a board row: every column has the expected type.
pub open spec fn summary_row_ok(row: Seq<SqlValue>) -> bool {
    &&& text_cell(row, 0) is Some
    &&& text_cell(row, 1) is Some
    &&& text_cell(row, 2) is Some
    &&& text_cell(row, 3) is Some
    &&& opt_text_cell(row, 4) is Some
    &&& text_cell(row, 5) is Some
    &&& opt_text_cell(row, 6) is Some
    &&& text_cell(row, 7) is Some
    &&& int_cell(row, 8) is Some
}

/// `x` is a board row decoded from `row`, column by column.
pub open spec fn summary_of_row(x: ReelSummary, row: Seq<SqlValue>) -> bool {
    &&& text_cell(row, 0) == Some(x.id@)
    &&& text_cell(row, 1) == Some(x.code@)
    &&& text_cell(row, 2) == Some(x.title@)
    &&& text_cell(row, 3) == Some(x.slug@)
    &&& opt_text_cell(row, 4) == Some(crate::text::opt_view(x.pillar_id))
    &&& text_cell(row, 5) == Some(x.status@)
    &&& opt_text_cell(row, 6) == Some(crate::text::opt_view(x.target_date))
    &&& text_cell(row, 7) == Some(x.updated_at@)
    &&& int_cell(row, 8) == Some(x.block_count)
}

/// `x` was decoded from some row.
pub open spec fn summary_decoded(x: ReelSummary) -> bool {
    exists|row: Seq<SqlValue>| summary_of_row(x, row)
}

/// Decode a board row from a result row.
pub fn row_to_summary(r: &Row) -> (s: Result<ReelSummary>)
    ensures
        s matches Err(e) ==> e is Sqlite,
        s is Ok <==> summary_row_ok(r@),
        s matches Ok(x) ==> summary_of_row(x, r@),
{
    Ok(ReelSummary {
        id: col_text(r, 0)?,
        code: col_text(r, 1)?,
        title: col_text(r, 2)?,
        slug: col_text(r, 3)?,
        pillar_id: col_opt_text(r, 4)?,
        status: col_text(r, 5)?,
        target_date: col_opt_text(r, 6)?,
        updated_at: col_text(r, 7)?,
        block_count: col_int(r, 8)?,
    })
}

/// Board rows, most recently touched first: only `status` when given (else
/// every reel but archived/killed), only `pillar_id` when given, and for a
/// non-blank search query only the matches, best match first.
pub fn list(
    conn: &rusqlite::Connection,
    status: Option<&str>,
    pillar_id: Option<&str>,
    query_text: Option<&str>,
) -> (r: Result<Vec<ReelSummary>>)
    ensures
        r matches Ok(v) ==> forall|k: int| 0 <= k < v.len() ==> summary_decoded(#[trigger] v@[k]),
        r matches Err(e) ==> e is Sqlite,
{
    let match_ids: Option<Vec<String>> = match query_text {
        Some(q) => {
            if !is_blank(q) {
                Some(search::matching_ids(conn, "reel", q)?)
            } else {
                None
            }
        },
        None => None,
    };
    let rows = query(
        conn,
        "SELECT r.id, r.code, r.title, r.slug, r.pillar_id, r.status, r.target_date, r.updated_at,
                (SELECT COUNT(*) FROM script_blocks sb WHERE sb.reel_id = r.id)
         FROM reels r
         WHERE (?1 IS NULL OR r.status = ?1)
           AND (?2 IS NULL OR r.pillar_id = ?2)
           AND (?1 IS NOT NULL OR r.status NOT IN ('archived','killed'))
         ORDER BY r.updated_at DESC",
        &vec![opt_text(status), opt_text(pillar_id)],
    )?;
    let mut all: Vec<ReelSummary> = Vec::new();
    let mut i: usize = 0;
    while i < rows.len()
        invariant
            i <= rows.len(),
            forall|k: int| 0 <= k < all.len() ==> summary_decoded(#[trigger] all@[k]),
        decreases rows.len() - i,
    {
        let x = row_to_summary(&rows[i])?;
        assert(summary_of_row(x, rows@[i as int]@));
        all.push(x);
        i += 1;
    }
    match match_ids {
        Some(ranked) => {
            let mut ids: Vec<String> = Vec::new();
            let mut k: usize = 0;
            while k < all.len()
                invariant
                    k <= all.len(),
                    ids.len() == k,
                decreases all.len() - k,
            {
                ids.push(owned(all[k].id.as_str()));
                k += 1;
            }
            let order = rank_order(&ids, &ranked);
            let mut out: Vec<ReelSummary> = Vec::new();
            let mut q: usize = 0;
            while q < order.len()
                invariant
                    q <= order.len(),
                    ids.len() == all.len(),
                    forall|k: int| 0 <= k < order.len() ==> order@[k] < ids.len(),
                    forall|k: int| 0 <= k < all.len() ==> summary_decoded(#[trigger] all@[k]),
                    forall|k: int| 0 <= k < out.len() ==> summary_decoded(#[trigger] out@[k]),
                decreases order.len() - q,
            {
                assert(summary_decoded(all@[order@[q as int] as int]));
                out.push(all[order[q]].duplicate());
                q += 1;
            }
            Ok(out)
        },
        None => Ok(all),
    }
}

/// A row decodes as a script block: every column has the expected type.
pub open spec fn block_row_ok(row: Seq<SqlValue>) -> bool {
    &&& text_cell(row, 0) is Some
    &&& int_cell(row, 1) is Some
    &&& text_cell(row, 2) is Some
    &&& opt_text_cell(row, 3) is Some
    &&& opt_text_cell(row, 4) is Some
    &&& text_cell(row, 5) is Some
    &&& opt_int_cell(row, 6) is Some
}

/// `x` is a script block decoded from `row`, column by column.
pub open spec fn block_of_row(x: BlockView, row: Seq<SqlValue>) -> bool {
    &&& text_cell(row, 0) == Some(x.id@)
    &&& int_cell(row, 1) == Some(x.position)
    &&& text_cell(row, 2) == Some(x.kind@)
    &&& opt_text_cell(row, 3) == Some(crate::text::opt_view(x.component_id))
    &&& opt_text_cell(row, 4) == Some(crate::text::opt_view(x.component_code))
    &&& text_cell(row, 5) == Some(x.text@)
    &&& opt_int_cell(row, 6) == Some(x.est_seconds)
}

/// `x` was decoded from some row.
pub open spec fn block_decoded(x: BlockView) -> bool {
    exists|row: Seq<SqlValue>| block_of_row(x, row)
}

/// Decode a script block from a result row.
pub fn row_to_block(r: &Row) -> (b: Result<BlockView>)
    ensures
        b matches Err(e) ==> e is Sqlite,
        b is Ok <==> block_row_ok(r@),
        b matches Ok(x) ==> block_of_row(x, r@),
{
    Ok(BlockView {
        id: col_text(r, 0)?,
        position: col_int(r, 1)?,
        kind: col_text(r, 2)?,
        component_id: col_opt_text(r, 3)?,
        component_code: col_opt_text(r, 4)?,
        text: col_text(r, 5)?,
        est_seconds: col_opt_int(r, 6)?,
    })
}

/// A reel with its blocks in script order, component text resolved.
pub fn get_detail(conn: &rusqlite::Connection, id: &str) -> (r: Result<ReelDetail>)
    ensures
        r matches Ok(d) ==> forall|k: int| 0 <= k < d.blocks.len() ==> block_decoded(#[trigger] d.blocks@[k]),
        !(r matches Err(CoreError::Invalid(_))),
        r matches Err(CoreError::NotFound(m)) ==> m@ == "reel "@ + id@,
{
    let row = match query_opt(
        conn,
        "SELECT id, code, title, slug, pillar_id, status, notes, target_date, created_at, updated_at
         FROM reels WHERE id = ?1",
        &crate::db::texts_write(&[id]),
    )? {
        Some(r) => r,
        None => return Err(not_found("reel ", id)),
    };
    let rows = query(
        conn,
        "SELECT sb.id, sb.position, sb.kind, sb.component_id, c.code,
                COALESCE(c.text, sb.text, ''), sb.est_seconds
         FROM script_blocks sb
         LEFT JOIN components c ON c.id = sb.component_id
         WHERE sb.reel_id = ?1 ORDER BY sb.position",
        &crate::db::texts_write(&[id]),
    )?;
    let mut blocks: Vec<BlockView> = Vec::new();
    let mut i: usize = 0;
    while i < rows.len()
        invariant
            i <= rows.len(),
            forall|k: int| 0 <= k < blocks.len() ==> block_decoded(#[trigger] blocks@[k]),
        decreases rows.len() - i,
    {
        let x = row_to_block(&rows[i])?;
        assert(block_of_row(x, rows@[i as int]@));
        blocks.push(x);
        i += 1;
    }
    Ok(ReelDetail {
        id: col_text(&row, 0)?,
        code: col_text(&row, 1)?,
        title: col_text(&row, 2)?,
        slug: col_text(&row, 3)?,
        pillar_id: col_opt_text(&row, 4)?,
        status: col_text(&row, 5)?,
        notes: col_opt_text(&row, 6)?,
        target_date: col_opt_text(&row, 7)?,
        created_at: col_text(&row, 8)?,
        updated_at: col_text(&row, 9)?,
        blocks,
    })
}

/// A row decodes as a calendar entry: every column has the expected type.
pub open spec fn calendar_row_ok(row: Seq<SqlValue>) -> bool {
    &&& text_cell(row, 0) is Some
    &&& text_cell(row, 1) is Some
    &&& text_cell(row, 2) is Some
    &&& text_cell(row, 3) is Some
    &&& opt_text_cell(row, 4) is Some
    &&& text_cell(row, 5) is Some
}

/// `x` is a calendar entry decoded from `row`, column by column.
pub open spec fn calendar_of_row(x: CalendarReel, row: Seq<SqlValue>) -> bool {
    &&& text_cell(row, 0) == Some(x.id@)
    &&& text_cell(row, 1) == Some(x.code@)
    &&& text_cell(row, 2) == Some(x.title@)
    &&& text_cell(row, 3) == Some(x.status@)
    &&& opt_text_cell(row, 4) == Some(opt_view(x.pillar_id))
    &&& text_cell(row, 5) == Some(x.target_date@)
}

/// `x` was decoded from some row.
pub open spec fn calendar_decoded(x: CalendarReel) -> bool {
    exists|row: Seq<SqlValue>| calendar_of_row(x, row)
}

/// Decode a calendar entry from a result row.
pub fn row_to_calendar(r: &Row) -> (c: Result<CalendarReel>)
    ensures
        c matches Err(e) ==> e is Sqlite,
        c is Ok <==> calendar_row_ok(r@),
        c matches Ok(x) ==> calendar_of_row(x, r@),
{
    Ok(CalendarReel {
        id: col_text(r, 0)?,
        code: col_text(r, 1)?,
        title: col_text(r, 2)?,
        status: col_text(r, 3)?,
        pillar_id: col_opt_text(r, 4)?,
        target_date: col_text(r, 5)?,
    })
}

/// Reels with a target date inside [start, end] (inclusive, YYYY-MM-DD),
/// archived and killed left out, by date then code.
pub fn calendar_range(conn: &rusqlite::Connection, start: &str, end: &str) -> (r: Result<Vec<CalendarReel>>)
    ensures
        r matches Ok(v) ==> forall|k: int| 0 <= k < v.len() ==> calendar_decoded(#[trigger] v@[k]),
        r matches Err(e) ==> e is Sqlite,
{
    let rows = query(
        conn,
        "SELECT id, code, title, status, pillar_id, target_date
         FROM reels
         WHERE target_date >= ?1 AND target_date <= ?2 AND status NOT IN ('archived','killed')
         ORDER BY target_date, code",
        &crate::db::texts_write(&[start, end]),
    )?;
    let mut out: Vec<CalendarReel> = Vec::new();
    let mut i: usize = 0;
    while i < rows.len()
        invariant
            i <= rows.len(),
            forall|k: int| 0 <= k < out.len() ==> calendar_decoded(#[trigger] out@[k]),
        decreases rows.len() - i,
    {
        let x = row_to_calendar(&rows[i])?;
        assert(calendar_of_row(x, rows@[i as int]@));
        out.push(x);
        i += 1;
    }
    Ok(out)
}

/// Reels sitting mid-pipeline with no movement for `days` — the "falling
/// through the cracks" detector, oldest first. Ideas and terminal states don't
/// count.
pub fn stuck(conn: &rusqlite::Connection, days: i64) -> (r: Result<Vec<ReelSummary>>)
    requires
        -90_000_000 <= days <= 90_000_000,
    ensures
        r matches Ok(v) ==> forall|k: int| 0 <= k < v.len() ==> summary_decoded(#[trigger] v@[k])
            && is_mid_pipeline(v@[k].status@),
        r matches Ok(v) ==> forall|a: int, b: int| 0 <= a < b < v.len() ==> !seq_lt(
            #[trigger] v@[b].updated_at@,
            #[trigger] v@[a].updated_at@,
        ),
        r matches Err(e) ==> e is Sqlite,
{
    let cutoff = clock::days_ago_iso(days);
    let all = list(conn, None, None, None)?;
    let mut statuses: Vec<String> = Vec::new();
    let mut updated: Vec<String> = Vec::new();
    let mut k: usize = 0;
    while k < all.len()
        invariant
            k <= all.len(),
            statuses.len() == k,
            updated.len() == k,
            forall|j: int| 0 <= j < k ==> #[trigger] statuses@[j]@ == all@[j].status@,
            forall|j: int| 0 <= j < k ==> #[trigger] updated@[j]@ == all@[j].updated_at@,
        decreases all.len() - k,
    {
        statuses.push(all[k].status.clone());
        updated.push(all[k].updated_at.clone());
        k += 1;
    }
    let order = stuck_order(&statuses, &updated, cutoff.as_str());
    let ghost keys = updated@.map_values(|s: String| s@);
    let mut out: Vec<ReelSummary> = Vec::new();
    let mut q: usize = 0;
    while q < order.len()
        invariant
            q <= order.len(),
            out.len() == q,
            statuses.len() == all.len(),
            updated.len() == all.len(),
            keys == updated@.map_values(|s: String| s@),
            forall|j: int| 0 <= j < all.len() ==> #[trigger] statuses@[j]@ == all@[j].status@,
            forall|j: int| 0 <= j < all.len() ==> #[trigger] updated@[j]@ == all@[j].updated_at@,
            forall|k: int| 0 <= k < all.len() ==> summary_decoded(#[trigger] all@[k]),
            stable_sorted_selection(
                order@,
                |i: int| is_stuck(statuses@[i]@, updated@[i]@, cutoff@),
                keys,
            ),
            forall|j: int| 0 <= j < q ==> #[trigger] out@[j] == all@[order@[j] as int],
        decreases order.len() - q,
    {
        out.push(all[order[q]].duplicate());
        q += 1;
    }
    proof {
        assert forall|k: int| 0 <= k < out.len() implies summary_decoded(#[trigger] out@[k])
            && is_mid_pipeline(out@[k].status@) by {
            let j = order@[k] as int;
            assert(out@[k] == all@[j]);
            assert(is_stuck(statuses@[j]@, updated@[j]@, cutoff@));
        }
        assert forall|a: int, b: int| 0 <= a < b < out.len() implies !seq_lt(
            #[trigger] out@[b].updated_at@,
            #[trigger] out@[a].updated_at@,
        ) by {
            assert(out@[a] == all@[order@[a] as int]);
            assert(out@[b] == all@[order@[b] as int]);
            assert(keys[order@[a] as int] == updated@[order@[a] as int]@);
            assert(keys[order@[b] as int] == updated@[order@[b] as int]@);
        }
    }
    Ok(out)
}

/// Active reels with no target date yet — the calendar's "to plan" tray.
pub fn unscheduled(conn: &rusqlite::Connection) -> (r: Result<Vec<ReelSummary>>)
    ensures
        r matches Ok(v) ==> forall|k: int| 0 <= k < v.len() ==> summary_decoded(#[trigger] v@[k])
            && needs_planning(v@[k].target_date, v@[k].status@),
        r matches Err(e) ==> e is Sqlite,
{
    let all = list(conn, None, None, None)?;
    let ghost a = all@;
    let v = select_unscheduled(all);
    proof {
        let p = |s: ReelSummary| needs_planning(s.target_date, s.status@);
        a.filter_lemma(p);
        assert forall|k: int| 0 <= k < v.len() implies summary_decoded(#[trigger] v@[k])
            && needs_planning(v@[k].target_date, v@[k].status@) by {
            assert(a.filter(p)[k] == v@[k]);
            assert(a.filter(p).contains(v@[k]));
            a.lemma_filter_contains_rev(p, v@[k]);
            let j = choose|j: int| 0 <= j < a.len() && a[j] == v@[k];
            assert(summary_decoded(a[j]));
        }
    }
    Ok(v)
}

/// Distinct reels with a post scheduled inside the current Mon–Sun week.
pub fn scheduled_this_week(conn: &rusqlite::Connection) -> (r: Result<i64>)
    ensures
        r matches Err(e) ==> !(e is Invalid),
{
    let today = clock::local_today();
    let back = clock::days_from_monday(&today);
    let monday = match clock::shift_days(&today, -(back as i64)) {
        Some(d) => d,
        None => return Err(CoreError::NotFound(owned("date outside the calendar"))),
    };
    let next_monday = match clock::shift_days(&monday, 7) {
        Some(d) => d,
        None => return Err(CoreError::NotFound(owned("date outside the calendar"))),
    };
    let row = query_one(
        conn,
        "SELECT COUNT(DISTINCT reel_id) FROM posts
         WHERE scheduled_at >= ?1 AND scheduled_at < ?2 AND status != 'canceled'",
        &vec![Param::Text(clock::format_ymd(&monday)), Param::Text(clock::format_ymd(&next_monday))],
    )?;
    col_int(&row, 0)
}

/// Rebuild a reel's search-index row: title + notes + resolved block text.
fn reindex(conn: &rusqlite::Connection, id: &str) -> (r: Result<()>)
    ensures
        !(r matches Err(CoreError::Invalid(_))),
{
    let detail = get_detail(conn, id)?;
    let content = search_text(&detail);
    search::upsert(conn, "reel", id, content.as_str())
}

} // verus!
