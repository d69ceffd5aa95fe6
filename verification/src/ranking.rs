//! Ordering list views by search rank: keep the records a full-text query
//! matched, best match first.

use vstd::prelude::*;

use crate::text::str_eq;

verus! {

/// `j` is the last position of its id in `ranked` (the rank a later duplicate
/// would overwrite an earlier one with).
pub open spec fn last_of_its_id(ranked: Seq<Seq<char>>, j: int) -> bool {
    forall|k: int| j < k < ranked.len() ==> ranked[k] != ranked[j]
}

/// Indices of `ids` whose id equals `key`, ascending.
pub open spec fn positions_of(ids: Seq<Seq<char>>, key: Seq<char>, upto: int) -> Seq<usize>
    decreases upto,
{
    if upto <= 0 {
        Seq::empty()
    } else if ids[upto - 1] == key {
        positions_of(ids, key, upto - 1).push((upto - 1) as usize)
    } else {
        positions_of(ids, key, upto - 1)
    }
}

/// The rank order over the first `upto` ranked ids: for each rank position
/// (ascending) that is the last occurrence of its id, the record indices
/// holding that id, in their original order.
pub open spec fn rank_order_spec(ids: Seq<Seq<char>>, ranked: Seq<Seq<char>>, upto: int) -> Seq<usize>
    decreases upto,
{
    if upto <= 0 {
        Seq::empty()
    } else if last_of_its_id(ranked, upto - 1) {
        rank_order_spec(ids, ranked, upto - 1) + positions_of(ids, ranked[upto - 1], ids.len() as int)
    } else {
        rank_order_spec(ids, ranked, upto - 1)
    }
}

/// The views of a list of strings.
pub open spec fn id_views(v: Seq<String>) -> Seq<Seq<char>> {
    v.map_values(|s: String| s@)
}

fn positions(ids: &Vec<String>, key: &str) -> (r: Vec<usize>)
    ensures
        r@ == positions_of(id_views(ids@), key@, ids.len() as int),
{
    let mut r: Vec<usize> = Vec::new();
    let mut i: usize = 0;
    while i < ids.len()
        invariant
            i <= ids.len(),
            r@ == positions_of(id_views(ids@), key@, i as int),
        decreases ids.len() - i,
    {
        assert(id_views(ids@)[i as int] == ids@[i as int]@);
        if str_eq(ids[i].as_str(), key) {
            r.push(i);
        }
        i += 1;
    }
    r
}

/// The record indices a ranked filter keeps, in rank order: records whose id
/// appears in `ranked`, ordered by the id's (last) rank position, ties in
/// their original order.
pub fn rank_order(ids: &Vec<String>, ranked: &Vec<String>) -> (r: Vec<usize>)
    ensures
        r@ == rank_order_spec(id_views(ids@), id_views(ranked@), ranked.len() as int),
        forall|k: int| 0 <= k < r.len() ==> r@[k] < ids.len(),
{
    let mut r: Vec<usize> = Vec::new();
    let mut j: usize = 0;
    while j < ranked.len()
        invariant
            j <= ranked.len(),
            r@ == rank_order_spec(id_views(ids@), id_views(ranked@), j as int),
            forall|k: int| 0 <= k < r.len() ==> r@[k] < ids.len(),
        decreases ranked.len() - j,
    {
        let mut last = true;
        let mut k: usize = j + 1;
        while k < ranked.len()
            invariant
                j < ranked.len(),
                j + 1 <= k <= ranked.len(),
                last == (forall|m: int| j < m < k ==> id_views(ranked@)[m] != id_views(ranked@)[j as int]),
            decreases ranked.len() - k,
        {
            assert(id_views(ranked@)[k as int] == ranked@[k as int]@);
            assert(id_views(ranked@)[j as int] == ranked@[j as int]@);
            if str_eq(ranked[k].as_str(), ranked[j].as_str()) {
                last = false;
            }
            k += 1;
        }
        assert(id_views(ranked@)[j as int] == ranked@[j as int]@);
        if last {
            let p = positions(ids, ranked[j].as_str());
            proof {
                assert forall|q: int| 0 <= q < p.len() implies p@[q] < ids.len() by {
                    lemma_positions_bound(id_views(ids@), ranked[j as int]@, ids.len() as int, q);
                }
            }
            let ghost before = r@;
            let mut q: usize = 0;
            while q < p.len()
                invariant
                    q <= p.len(),
                    r@ == before + p@.take(q as int),
                    forall|k: int| 0 <= k < r.len() ==> r@[k] < ids.len(),
                    forall|q: int| 0 <= q < p.len() ==> p@[q] < ids.len(),
                decreases p.len() - q,
            {
                r.push(p[q]);
                q += 1;
                assert(r@ =~= before + p@.take(q as int));
            }
            assert(p@.take(p.len() as int) =~= p@);
        }
        j += 1;
    }
    r
}

proof fn lemma_positions_bound(ids: Seq<Seq<char>>, key: Seq<char>, upto: int, q: int)
    requires
        0 <= upto <= ids.len(),
        0 <= q < positions_of(ids, key, upto).len(),
    ensures
        positions_of(ids, key, upto)[q] < upto,
    decreases upto,
{
    if upto > 0 {
        if ids[upto - 1] == key {
            if q < positions_of(ids, key, upto - 1).len() {
                lemma_positions_bound(ids, key, upto - 1, q);
            }
        } else {
            lemma_positions_bound(ids, key, upto - 1, q);
        }
    }
}

} // verus!
