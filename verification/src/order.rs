//! Putting records in order: by an integer key, and text lists sorted with
//! duplicates removed.

use vstd::prelude::*;

use crate::text::{lemma_seq_lt_total, lemma_seq_lt_trans, owned, seq_lt, str_eq, str_lt, views};

verus! {

/// The integer in column `col` of every row.
pub fn int_keys(rows: &Vec<crate::db::Row>, col: usize) -> (r: crate::Result<Vec<i64>>)
    ensures
        r matches Err(e) ==> e is Sqlite,
        r matches Ok(k) ==> k.len() == rows.len() && forall|j: int|
            0 <= j < rows.len() ==> crate::db::int_cell((#[trigger] rows@[j])@, col as int) == Some(k@[j]),
{
    let mut k: Vec<i64> = Vec::new();
    let mut i: usize = 0;
    while i < rows.len()
        invariant
            i <= rows.len(),
            k.len() == i,
            forall|j: int| 0 <= j < i ==> crate::db::int_cell((#[trigger] rows@[j])@, col as int) == Some(k@[j]),
        decreases rows.len() - i,
    {
        k.push(crate::db::col_int(&rows[i], col)?);
        i += 1;
    }
    Ok(k)
}

/// `ord` lists every index of `keys` once, in order of non-decreasing key.
pub open spec fn orders_by_key(keys: Seq<i64>, ord: Seq<usize>) -> bool {
    &&& ord.len() == keys.len()
    &&& forall|i: int| 0 <= i < ord.len() ==> (#[trigger] ord[i]) < keys.len()
    &&& forall|i: int, j: int| 0 <= i < j < ord.len() ==> #[trigger] ord[i] != #[trigger] ord[j]
    &&& forall|i: int, j: int| 0 <= i < j < ord.len() ==> keys[#[trigger] ord[i] as int] <= keys[#[trigger] ord[j] as int]
}

/// The indices of `keys` in order of non-decreasing key (equal keys keep
/// their order).
pub fn order_by_key(keys: &Vec<i64>) -> (ord: Vec<usize>)
    ensures
        orders_by_key(keys@, ord@),
{
    let mut ord: Vec<usize> = Vec::new();
    let mut i: usize = 0;
    while i < keys.len()
        invariant
            i <= keys.len(),
            ord.len() == i,
            forall|q: int| 0 <= q < ord.len() ==> (#[trigger] ord@[q]) < i,
            forall|a: int, b: int| 0 <= a < b < ord.len() ==> #[trigger] ord@[a] != #[trigger] ord@[b],
            forall|a: int, b: int|
                0 <= a < b < ord.len() ==> keys@[#[trigger] ord@[a] as int] <= keys@[#[trigger] ord@[b] as int],
        decreases keys.len() - i,
    {
        let k = keys[i];
        let mut p: usize = 0;
        while p < ord.len() && keys[ord[p]] <= k
            invariant
                p <= ord.len(),
                i < keys.len(),
                k == keys@[i as int],
                forall|q: int| 0 <= q < ord.len() ==> (#[trigger] ord@[q]) < i,
                forall|q: int| 0 <= q < p ==> keys@[(#[trigger] ord@[q]) as int] <= k,
            decreases ord.len() - p,
        {
            p += 1;
        }
        let ghost before = ord@;
        proof {
            assert forall|q: int| p <= q < before.len() implies keys@[(#[trigger] before[q]) as int] > k by {
                if q > p {
                    assert(keys@[before[p as int] as int] <= keys@[before[q] as int]);
                }
            }
        }
        ord.insert(p, i);
        proof {
            let after = ord@;
            assert(after == before.insert(p as int, i));
            assert forall|a: int, b: int| 0 <= a < b < after.len() implies keys@[#[trigger] after[a] as int]
                <= keys@[#[trigger] after[b] as int] by {
                if a < p && b == p {
                } else if a < p && b > p {
                    assert(after[b] == before[b - 1]);
                } else if a == p {
                    assert(after[b] == before[b - 1]);
                } else if a > p {
                    assert(after[a] == before[a - 1] && after[b] == before[b - 1]);
                } else {
                    assert(after[a] == before[a] && after[b] == before[b]);
                }
            }
            assert forall|a: int, b: int| 0 <= a < b < after.len() implies #[trigger] after[a] != #[trigger] after[b] by {
                if a < p && b == p {
                } else if a < p && b > p {
                    assert(after[b] == before[b - 1]);
                } else if a == p {
                    assert(after[b] == before[b - 1]);
                } else if a > p {
                    assert(after[a] == before[a - 1] && after[b] == before[b - 1]);
                } else {
                    assert(after[a] == before[a] && after[b] == before[b]);
                }
            }
            assert forall|q: int| 0 <= q < after.len() implies (#[trigger] after[q]) < i + 1 by {
                if q < p {
                } else if q > p {
                    assert(after[q] == before[q - 1]);
                }
            }
        }
        i += 1;
    }
    ord
}

proof fn lemma_push_contains(a: Seq<Seq<char>>, e: Seq<char>, x: Seq<char>)
    ensures
        a.push(e).contains(x) <==> (a.contains(x) || x == e),
{
    if a.push(e).contains(x) {
        let j = choose|j: int| 0 <= j < a.push(e).len() && a.push(e)[j] == x;
        if j < a.len() {
            assert(a[j] == x);
        }
    }
    if a.contains(x) {
        let j = choose|j: int| 0 <= j < a.len() && a[j] == x;
        assert(a.push(e)[j] == x);
    }
    if x == e {
        assert(a.push(e)[a.len() as int] == x);
    }
}

/// `v` is in strictly increasing text order (so no text occurs twice).
pub open spec fn strictly_sorted(v: Seq<Seq<char>>) -> bool {
    forall|a: int, b: int| 0 <= a < b < v.len() ==> seq_lt(#[trigger] v[a], #[trigger] v[b])
}

/// The distinct texts of `v` in increasing order.
pub fn sorted_distinct(v: &Vec<String>) -> (out: Vec<String>)
    ensures
        strictly_sorted(views(out@)),
        forall|x: Seq<char>| views(out@).contains(x) <==> views(v@).contains(x),
{
    let mut out: Vec<String> = Vec::new();
    let mut i: usize = 0;
    while i < v.len()
        invariant
            i <= v.len(),
            strictly_sorted(views(out@)),
            forall|x: Seq<char>| views(out@).contains(x) <==> views(v@.take(i as int)).contains(x),
        decreases v.len() - i,
    {
        let s = v[i].as_str();
        let mut p: usize = 0;
        while p < out.len() && str_lt(out[p].as_str(), s)
            invariant
                p <= out.len(),
                forall|q: int| 0 <= q < p ==> seq_lt((#[trigger] out@[q])@, s@),
            decreases out.len() - p,
        {
            p += 1;
        }
        let ghost before = out@;
        proof {
            assert(v@.take(i + 1) =~= v@.take(i as int).push(v@[i as int]));
            assert(views(v@.take(i + 1)) =~= views(v@.take(i as int)).push(s@));
        }
        if p < out.len() && str_eq(out[p].as_str(), s) {
            proof {
                assert(views(before)[p as int] == s@);
                assert forall|x: Seq<char>| views(out@).contains(x) <==> views(v@.take(i + 1)).contains(x) by {
                    lemma_push_contains(views(v@.take(i as int)), s@, x);
                    if x == s@ {
                        assert(views(out@)[p as int] == x);
                    }
                }
            }
        } else {
            proof {
                if p < before.len() {
                    lemma_seq_lt_total(before[p as int]@, s@);
                    assert(seq_lt(s@, before[p as int]@));
                }
            }
            out.insert(p, owned(s));
            proof {
                let after = out@;
                assert(after == before.insert(p as int, after[p as int]));
                assert(after[p as int]@ == s@);
                assert forall|a: int, b: int| 0 <= a < b < views(after).len() implies seq_lt(
                    #[trigger] views(after)[a],
                    #[trigger] views(after)[b],
                ) by {
                    assert(views(before)[0] == before[0]@ || before.len() == 0);
                    if b == p {
                        assert(after[a] == before[a]);
                    } else if a == p {
                        assert(after[b] == before[b - 1]);
                        if b - 1 > p {
                            assert(seq_lt(before[p as int]@, before[b - 1]@)) by {
                                assert(views(before)[p as int] == before[p as int]@);
                                assert(views(before)[b - 1] == before[b - 1]@);
                            }
                            lemma_seq_lt_trans(s@, before[p as int]@, before[b - 1]@);
                        }
                    } else if a < p && b > p {
                        assert(after[a] == before[a] && after[b] == before[b - 1]);
                        assert(seq_lt(before[a]@, s@));
                        if b - 1 > p {
                            assert(seq_lt(before[p as int]@, before[b - 1]@)) by {
                                assert(views(before)[p as int] == before[p as int]@);
                                assert(views(before)[b - 1] == before[b - 1]@);
                            }
                            lemma_seq_lt_trans(s@, before[p as int]@, before[b - 1]@);
                        }
                        lemma_seq_lt_trans(before[a]@, s@, before[b - 1]@);
                    } else if a > p {
                        assert(after[a] == before[a - 1] && after[b] == before[b - 1]);
                        assert(views(before)[a - 1] == before[a - 1]@);
                        assert(views(before)[b - 1] == before[b - 1]@);
                    } else {
                        assert(after[a] == before[a] && after[b] == before[b]);
                        assert(views(before)[a] == before[a]@);
                        assert(views(before)[b] == before[b]@);
                    }
                }
                assert forall|x: Seq<char>| views(after).contains(x) <==> views(v@.take(i + 1)).contains(x) by {
                    lemma_push_contains(views(v@.take(i as int)), s@, x);
                    if views(after).contains(x) {
                        let j = choose|j: int| 0 <= j < views(after).len() && views(after)[j] == x;
                        if j < p {
                            assert(views(before)[j] == x);
                        } else if j > p {
                            assert(views(before)[j - 1] == x);
                        }
                    }
                    if views(before).contains(x) {
                        let j = choose|j: int| 0 <= j < views(before).len() && views(before)[j] == x;
                        if j < p {
                            assert(views(after)[j] == x);
                        } else {
                            assert(views(after)[j + 1] == x);
                        }
                    }
                    if x == s@ {
                        assert(views(after)[p as int] == x);
                    }
                }
            }
        }
        i += 1;
    }
    assert(v@.take(v.len() as int) =~= v@);
    out
}

} // verus!
