//! Database backups: one snapshot file per day, named by date, and the rule
//! for which old snapshots are pruned. Taking the snapshot and deleting files
//! stay with the caller.

use vstd::prelude::*;

use crate::text::{chars_of, concat3, seq_lt, str_lt};

verus! {

/// How many snapshots are kept.
pub const KEEP: usize = 30;

/// A snapshot's file name: "contentos-" and ".db" around anything.
pub open spec fn is_backup_name_spec(name: Seq<char>) -> bool {
    &&& name.len() >= 13
    &&& name.subrange(0, 10) == "contentos-"@
    &&& name.subrange(name.len() - 3, name.len() as int) == ".db"@
}

/// Whether a file name is a snapshot's.
pub fn is_backup_name(name: &str) -> (b: bool)
    ensures
        b == is_backup_name_spec(name@),
{
    let v = chars_of(name);
    proof {
        reveal_strlit("contentos-");
        reveal_strlit(".db");
    }
    if v.len() < 13 {
        return false;
    }
    let pre = ['c', 'o', 'n', 't', 'e', 'n', 't', 'o', 's', '-'];
    let mut i: usize = 0;
    while i < 10
        invariant
            i <= 10,
            13 <= v.len(),
            v@ == name@,
            pre@ == "contentos-"@,
            forall|j: int| 0 <= j < i ==> v@[j] == pre@[j],
        decreases 10 - i,
    {
        if v[i] != pre[i] {
            assert(name@.subrange(0, 10)[i as int] != "contentos-"@[i as int]);
            return false;
        }
        i += 1;
    }
    assert(name@.subrange(0, 10) =~= "contentos-"@);
    let n = v.len();
    let ok = v[n - 3] == '.' && v[n - 2] == 'd' && v[n - 1] == 'b';
    if ok {
        assert(name@.subrange(n - 3, n as int) =~= ".db"@);
    } else {
        let ghost t = name@.subrange(n - 3, n as int);
        assert(t[0] == v@[n - 3] && t[1] == v@[n - 2] && t[2] == v@[n - 1]);
    }
    ok
}

/// Today's snapshot name: "contentos-{YYYY-MM-DD}.db" from the current time.
pub fn backup_file_name(now: &str) -> (r: String)
    requires
        now@.len() >= 10,
        forall|i: int| 0 <= i < 10 ==> (now@[i] as u32) < 128,
    ensures
        r@ == "contentos-"@ + now@.subrange(0, 10) + ".db"@,
{
    let v = chars_of(now);
    let mut date = String::new();
    crate::text::push_range(&mut date, &v, 0, 10);
    concat3("contentos-", date.as_str(), ".db")
}

/// How many snapshot names of `names` sort after `name`.
pub open spec fn newer_count(names: Seq<Seq<char>>, name: Seq<char>) -> int
    decreases names.len(),
{
    if names.len() == 0 {
        0
    } else {
        newer_count(names.drop_last(), name) + (if is_backup_name_spec(names.last()) && seq_lt(
            name,
            names.last(),
        ) {
            1int
        } else {
            0
        })
    }
}

/// A snapshot is pruned when at least `KEEP` snapshots are newer (date-stamped
/// names sort by date).
pub open spec fn pruned(names: Seq<Seq<char>>, name: Seq<char>) -> bool {
    is_backup_name_spec(name) && newer_count(names, name) >= KEEP
}

/// The snapshots among `s` that are pruned from the folder `all`, in order.
pub open spec fn pruned_of(all: Seq<Seq<char>>, s: Seq<Seq<char>>) -> Seq<Seq<char>>
    decreases s.len(),
{
    if s.len() == 0 {
        s
    } else {
        let r = pruned_of(all, s.drop_last());
        if pruned(all, s.last()) {
            r.push(s.last())
        } else {
            r
        }
    }
}

fn newer(names: &[String], name: &str) -> (n: usize)
    ensures
        n == newer_count(crate::text::views(names@), name@),
{
    let ghost vs = crate::text::views(names@);
    let mut n: usize = 0;
    let mut i: usize = 0;
    assert(vs.take(0) =~= Seq::<Seq<char>>::empty());
    while i < names.len()
        invariant
            i <= names.len(),
            vs == crate::text::views(names@),
            n == newer_count(vs.take(i as int), name@),
            n <= i,
        decreases names.len() - i,
    {
        proof {
            assert(vs.take(i + 1).drop_last() =~= vs.take(i as int));
            assert(vs.take(i + 1).last() == names@[i as int]@);
        }
        if is_backup_name(names[i].as_str()) && str_lt(name, names[i].as_str()) {
            n = n + 1;
        }
        i += 1;
    }
    assert(vs.take(i as int) =~= vs);
    n
}

/// The snapshots to delete from a folder's file names, in the order given:
/// all but the `KEEP` newest.
pub fn to_prune(names: &[String]) -> (r: Vec<String>)
    ensures
        crate::text::views(r@) == pruned_of(crate::text::views(names@), crate::text::views(names@)),
{
    let ghost vs = crate::text::views(names@);
    let mut out: Vec<String> = Vec::new();
    let mut i: usize = 0;
    assert(vs.take(0) =~= Seq::<Seq<char>>::empty());
    assert(crate::text::views(out@) =~= Seq::<Seq<char>>::empty());
    while i < names.len()
        invariant
            i <= names.len(),
            vs == crate::text::views(names@),
            crate::text::views(out@) == pruned_of(vs, vs.take(i as int)),
        decreases names.len() - i,
    {
        let ghost before = out@;
        proof {
            assert(vs.take(i + 1).drop_last() =~= vs.take(i as int));
            assert(vs.take(i + 1).last() == names@[i as int]@);
        }
        if is_backup_name(names[i].as_str()) && newer(names, names[i].as_str()) >= KEEP {
            out.push(names[i].clone());
            proof {
                crate::text::lemma_views_push(before, out@);
            }
        }
        i += 1;
    }
    assert(vs.take(i as int) =~= vs);
    out
}

} // verus!
