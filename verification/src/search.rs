//! Full-text search over reels and components (SQLite FTS5).

use vstd::prelude::*;

use crate::db::{Param, col_text, execute, text};
use crate::text::{char_is_ws, chars_of, is_ws, join, join_strings, lemma_views_push, push_char, views};
use crate::Result;

verus! {

/// Left-to-right white-space split of `s`: the finished tokens and the token
/// still being read.
pub open spec fn split_acc(s: Seq<char>) -> (Seq<Seq<char>>, Seq<char>)
    decreases s.len(),
{
    if s.len() == 0 {
        (Seq::empty(), Seq::empty())
    } else {
        let (toks, cur) = split_acc(s.drop_last());
        let c = s.last();
        if is_ws(c) {
            if cur.len() > 0 {
                (toks.push(cur), Seq::empty())
            } else {
                (toks, cur)
            }
        } else {
            (toks, cur.push(c))
        }
    }
}

/// The white-space separated words of `s` (`str::split_whitespace`).
pub open spec fn words(s: Seq<char>) -> Seq<Seq<char>> {
    let (toks, cur) = split_acc(s);
    if cur.len() > 0 {
        toks.push(cur)
    } else {
        toks
    }
}

/// `t` with every '"' doubled.
pub open spec fn escape_quotes(t: Seq<char>) -> Seq<char>
    decreases t.len(),
{
    if t.len() == 0 {
        Seq::empty()
    } else if t.last() == '"' {
        escape_quotes(t.drop_last()) + seq!['"', '"']
    } else {
        escape_quotes(t.drop_last()).push(t.last())
    }
}

/// Quoted text read back: each doubled quote is one quote.
pub open spec fn undouble(t: Seq<char>) -> Seq<char>
    decreases t.len(),
{
    if t.len() == 0 {
        t
    } else if t.len() >= 2 && t[0] == '"' && t[1] == '"' {
        seq!['"'] + undouble(t.subrange(2, t.len() as int))
    } else {
        seq![t[0]] + undouble(t.drop_first())
    }
}

proof fn lemma_escape_quotes_concat(a: Seq<char>, b: Seq<char>)
    ensures
        escape_quotes(a + b) == escape_quotes(a) + escape_quotes(b),
    decreases b.len(),
{
    if b.len() == 0 {
        assert(a + b =~= a);
        assert(escape_quotes(a) + escape_quotes(b) =~= escape_quotes(a));
    } else {
        lemma_escape_quotes_concat(a, b.drop_last());
        assert((a + b).drop_last() =~= a + b.drop_last());
        assert((a + b).last() == b.last());
        if b.last() == '"' {
            assert(escape_quotes(a) + escape_quotes(b) =~= escape_quotes(a) + escape_quotes(b.drop_last())
                + seq!['"', '"']);
        } else {
            assert(escape_quotes(a) + escape_quotes(b) =~= (escape_quotes(a) + escape_quotes(
                b.drop_last(),
            )).push(b.last()));
        }
    }
}

/// Reading back escaped text followed by anything gives the text, then the
/// rest read back.
pub proof fn lemma_undouble_escaped(x: Seq<char>, b: Seq<char>)
    ensures
        undouble(escape_quotes(x) + b) == x + undouble(b),
    decreases x.len(),
{
    if x.len() == 0 {
        assert(escape_quotes(x) + b =~= b);
        assert(x + undouble(b) =~= undouble(b));
    } else {
        let c = x[0];
        let rest = x.drop_first();
        assert(x =~= seq![c] + rest);
        lemma_escape_quotes_concat(seq![c], rest);
        let sc = seq![c];
        assert(sc.len() == 1 && sc.last() == c);
        assert(sc.drop_last() =~= Seq::<char>::empty());
        assert(escape_quotes(Seq::<char>::empty()) =~= Seq::<char>::empty());
        lemma_undouble_escaped(rest, b);
        let t = escape_quotes(x) + b;
        if c == '"' {
            assert(escape_quotes(seq![c]) =~= seq!['"', '"']);
            assert(t =~= seq!['"', '"'] + (escape_quotes(rest) + b));
            assert(t.subrange(2, t.len() as int) =~= escape_quotes(rest) + b);
        } else {
            assert(escape_quotes(seq![c]) =~= seq![c]);
            assert(t =~= seq![c] + (escape_quotes(rest) + b));
            assert(t.drop_first() =~= escape_quotes(rest) + b);
        }
        assert(x + undouble(b) =~= seq![c] + (rest + undouble(b)));
    }
}

/// Search words reach FTS5 intact: the string inside a query term, read back
/// as FTS5 reads a quoted string, is the word itself.
pub proof fn lemma_query_term_roundtrip(t: Seq<char>)
    ensures
        undouble(quote_token(t).subrange(1, quote_token(t).len() - 2)) == t,
{
    let q = quote_token(t);
    assert(q.subrange(1, q.len() - 2) =~= escape_quotes(t));
    lemma_undouble_escaped(t, Seq::empty());
    assert(escape_quotes(t) + Seq::<char>::empty() =~= escape_quotes(t));
    assert(t + undouble(Seq::<char>::empty()) =~= t);
}

/// One FTS5 prefix term: the token quoted (inner quotes doubled) and starred.
pub open spec fn quote_token(t: Seq<char>) -> Seq<char> {
    seq!['"'] + escape_quotes(t) + seq!['"', '*']
}

/// How FTS5 reads a quoted string that starts right after its opening quote:
/// the string's content (each doubled quote read as one) and what follows the
/// closing quote.
pub open spec fn read_string(s: Seq<char>) -> (Seq<char>, Seq<char>)
    decreases s.len(),
{
    if s.len() == 0 {
        (Seq::empty(), Seq::empty())
    } else if s[0] == '"' {
        if s.len() >= 2 && s[1] == '"' {
            let (c, r) = read_string(s.subrange(2, s.len() as int));
            (seq!['"'] + c, r)
        } else {
            (Seq::empty(), s.drop_first())
        }
    } else {
        let (c, r) = read_string(s.drop_first());
        (seq![s[0]] + c, r)
    }
}

/// What follows a quoted string is shorter than the text it was read from.
pub proof fn lemma_read_string_shorter(s: Seq<char>)
    ensures
        read_string(s).1.len() <= s.len(),
        s.len() > 0 ==> read_string(s).1.len() < s.len(),
    decreases s.len(),
{
    if s.len() > 0 {
        if s[0] == '"' {
            if s.len() >= 2 && s[1] == '"' {
                lemma_read_string_shorter(s.subrange(2, s.len() as int));
            }
        } else {
            lemma_read_string_shorter(s.drop_first());
        }
    }
}

/// How FTS5 reads a query of quoted prefix terms separated by single spaces:
/// the strings of the terms, in order.
pub open spec fn read_terms(q: Seq<char>) -> Seq<Seq<char>>
    decreases q.len(),
{
    if q.len() > 0 && q[0] == '"' {
        let (c, r) = read_string(q.drop_first());
        proof {
            lemma_read_string_shorter(q.drop_first());
        }
        if r.len() > 0 && r[0] == '*' {
            let r2 = r.drop_first();
            if r2.len() > 0 && r2[0] == ' ' {
                seq![c] + read_terms(r2.drop_first())
            } else {
                seq![c] + read_terms(r2)
            }
        } else {
            seq![c]
        }
    } else {
        Seq::empty()
    }
}

proof fn lemma_read_escaped(t: Seq<char>, r: Seq<char>)
    requires
        !(r.len() > 0 && r[0] == '"'),
    ensures
        read_string(escape_quotes(t) + seq!['"'] + r) == (t, r),
    decreases t.len(),
{
    let s = escape_quotes(t) + seq!['"'] + r;
    if t.len() == 0 {
        assert(escape_quotes(t) =~= Seq::<char>::empty());
        assert(s =~= seq!['"'] + r);
        assert(s[0] == '"');
        assert(!(s.len() >= 2 && s[1] == '"'));
        assert(s.drop_first() =~= r);
        assert(read_string(s) == (Seq::<char>::empty(), s.drop_first()));
        assert(t =~= Seq::<char>::empty());
    } else {
        let c = t[0];
        let rest = t.drop_first();
        assert(t =~= seq![c] + rest);
        lemma_escape_quotes_concat(seq![c], rest);
        let sc = seq![c];
        assert(sc.drop_last() =~= Seq::<char>::empty());
        assert(escape_quotes(Seq::<char>::empty()) =~= Seq::<char>::empty());
        lemma_read_escaped(rest, r);
        let inner = escape_quotes(rest) + seq!['"'] + r;
        let (rc, rr) = read_string(inner);
        assert(rc == rest && rr == r);
        if c == '"' {
            assert(escape_quotes(sc) =~= seq!['"', '"']);
            assert(s =~= seq!['"', '"'] + inner);
            assert(s[0] == '"' && s[1] == '"' && s.len() >= 2);
            assert(s.subrange(2, s.len() as int) =~= inner);
            assert(read_string(s) == (seq!['"'] + rc, rr));
            assert(seq!['"'] + rest =~= t);
        } else {
            assert(escape_quotes(sc) =~= seq![c]);
            assert(s =~= seq![c] + inner);
            assert(s[0] == c);
            assert(s.drop_first() =~= inner);
            assert(read_string(s) == (seq![c] + rc, rr));
            assert(seq![c] + rest =~= t);
        }
    }
}

proof fn lemma_read_term(t: Seq<char>, rest: Seq<char>, spaced: bool)
    requires
        spaced || rest.len() == 0,
    ensures
        read_terms(quote_token(t) + (if spaced { seq![' '] + rest } else { rest })) == seq![t] + read_terms(rest),
{
    let tail = if spaced { seq![' '] + rest } else { rest };
    let q = quote_token(t) + tail;
    assert(q.drop_first() =~= escape_quotes(t) + seq!['"'] + (seq!['*'] + tail));
    lemma_read_escaped(t, seq!['*'] + tail);
    let r = seq!['*'] + tail;
    assert(r.drop_first() =~= tail);
    if spaced {
        assert(tail.drop_first() =~= rest);
    } else {
        assert(tail.len() == 0);
    }
}

proof fn lemma_join_front(a: Seq<char>, l: Seq<Seq<char>>, sep: Seq<char>)
    requires
        l.len() > 0,
    ensures
        join(seq![a] + l, sep) == a + sep + join(l, sep),
    decreases l.len(),
{
    let full = seq![a] + l;
    assert(full.len() >= 2);
    assert(join(full, sep) == join(full.drop_last(), sep) + sep + full.last());
    if l.len() == 1 {
        assert(full.drop_last() =~= seq![a]);
        assert(full.last() == l[0]);
        assert(join(seq![a], sep) == a);
        assert(join(l, sep) == l[0]);
        assert(join(full, sep) =~= a + sep + join(l, sep));
    } else {
        lemma_join_front(a, l.drop_last(), sep);
        assert(full.drop_last() =~= seq![a] + l.drop_last());
        assert(full.last() == l.last());
        assert(join(l, sep) == join(l.drop_last(), sep) + sep + l.last());
        assert(join(full, sep) =~= a + sep + join(l, sep));
    }
}

proof fn lemma_read_joined(ws: Seq<Seq<char>>)
    ensures
        read_terms(join(ws.map_values(|t: Seq<char>| quote_token(t)), seq![' '])) == ws,
    decreases ws.len(),
{
    let qs = ws.map_values(|t: Seq<char>| quote_token(t));
    if ws.len() == 0 {
        assert(join(qs, seq![' ']) =~= Seq::<char>::empty());
        assert(read_terms(Seq::<char>::empty()) =~= ws);
    } else {
        let rest = ws.drop_first();
        let qr = rest.map_values(|t: Seq<char>| quote_token(t));
        assert(qs =~= seq![quote_token(ws[0])] + qr);
        lemma_read_joined(rest);
        if rest.len() == 0 {
            assert(qs =~= seq![quote_token(ws[0])]);
            assert(join(qs, seq![' ']) == quote_token(ws[0]));
            lemma_read_term(ws[0], Seq::empty(), false);
            assert(quote_token(ws[0]) + Seq::<char>::empty() =~= quote_token(ws[0]));
            assert(read_terms(Seq::<char>::empty()) =~= Seq::<Seq<char>>::empty());
            assert(seq![ws[0]] + Seq::<Seq<char>>::empty() =~= ws);
        } else {
            lemma_join_front(quote_token(ws[0]), qr, seq![' ']);
            let jr = join(qr, seq![' ']);
            assert(quote_token(ws[0]) + seq![' '] + jr =~= quote_token(ws[0]) + (seq![' '] + jr));
            lemma_read_term(ws[0], jr, true);
            assert(seq![ws[0]] + rest =~= ws);
        }
    }
}

/// Left-to-right split of `s` at every `c`: the finished pieces and the piece
/// still being read.
pub open spec fn split_at_acc(s: Seq<char>, c: char) -> (Seq<Seq<char>>, Seq<char>)
    decreases s.len(),
{
    if s.len() == 0 {
        (Seq::empty(), Seq::empty())
    } else {
        let (pieces, cur) = split_at_acc(s.drop_last(), c);
        if s.last() == c {
            (pieces.push(cur), Seq::empty())
        } else {
            (pieces, cur.push(s.last()))
        }
    }
}

/// `s` split at every `c` (`str::split` with a character).
pub open spec fn split_at(s: Seq<char>, c: char) -> Seq<Seq<char>> {
    let (pieces, cur) = split_at_acc(s, c);
    pieces.push(cur)
}

proof fn lemma_split_tail(x: Seq<char>, b: Seq<char>, c: char)
    requires
        !b.contains(c),
    ensures
        split_at_acc(x + b, c) == (split_at_acc(x, c).0, split_at_acc(x, c).1 + b),
    decreases b.len(),
{
    if b.len() == 0 {
        assert(x + b =~= x);
        assert(split_at_acc(x, c).1 + b =~= split_at_acc(x, c).1);
    } else {
        let b0 = b.drop_last();
        assert(!b0.contains(c)) by {
            if b0.contains(c) {
                let j = choose|j: int| 0 <= j < b0.len() && b0[j] == c;
                assert(b[j] == c);
            }
        }
        lemma_split_tail(x, b0, c);
        assert((x + b).drop_last() =~= x + b0);
        assert((x + b).last() == b.last());
        assert(b.last() != c) by {
            assert(b[b.len() - 1] == b.last());
        }
        assert(split_at_acc(x, c).1 + b0 + seq![b.last()] =~= split_at_acc(x, c).1 + b);
    }
}

proof fn lemma_split_join(l: Seq<Seq<char>>, c: char)
    requires
        l.len() > 0,
        forall|i: int| 0 <= i < l.len() ==> !(#[trigger] l[i]).contains(c),
    ensures
        split_at(join(l, seq![c]), c) == l,
    decreases l.len(),
{
    if l.len() == 1 {
        lemma_split_tail(Seq::empty(), l[0], c);
        assert(Seq::<char>::empty() + l[0] =~= l[0]);
        assert(split_at_acc(Seq::<char>::empty(), c).1 + l[0] =~= l[0]);
        assert(split_at(join(l, seq![c]), c) =~= l);
    } else {
        let l0 = l.drop_last();
        lemma_split_join(l0, c);
        let j0 = join(l0, seq![c]);
        assert(join(l, seq![c]) == j0 + seq![c] + l.last());
        assert(!l.last().contains(c)) by {
            assert(l[l.len() - 1] == l.last());
        }
        lemma_split_tail(j0 + seq![c], l.last(), c);
        assert((j0 + seq![c]).drop_last() =~= j0);
        assert((j0 + seq![c]).last() == c);
        assert(split_at_acc(j0 + seq![c], c).1 + l.last() =~= l.last());
        assert(split_at(join(l, seq![c]), c) =~= split_at(j0, c).push(l.last()));
        assert(l0.push(l.last()) =~= l);
    }
}

proof fn lemma_split_acc_no_ws(s: Seq<char>)
    ensures
        forall|i: int| 0 <= i < split_acc(s).0.len() ==> !(#[trigger] split_acc(s).0[i]).contains(' '),
        !split_acc(s).1.contains(' '),
    decreases s.len(),
{
    if s.len() > 0 {
        lemma_split_acc_no_ws(s.drop_last());
        let (toks, cur) = split_acc(s.drop_last());
        let c = s.last();
        assert(is_ws(' '));
        if !is_ws(c) {
            assert(!cur.push(c).contains(' ')) by {
                if cur.push(c).contains(' ') {
                    let j = choose|j: int| 0 <= j < cur.push(c).len() && cur.push(c)[j] == ' ';
                    if j < cur.len() {
                        assert(cur[j] == ' ');
                    }
                }
            }
        } else if cur.len() > 0 {
            assert forall|i: int| 0 <= i < toks.push(cur).len() implies !(#[trigger] toks.push(cur)[i]).contains(' ') by {
                if i < toks.len() {
                    assert(toks.push(cur)[i] == toks[i]);
                }
            }
            assert(!Seq::<char>::empty().contains(' '));
        }
    } else {
        assert(!Seq::<char>::empty().contains(' '));
    }
}

proof fn lemma_escape_no_space(t: Seq<char>)
    requires
        !t.contains(' '),
    ensures
        !escape_quotes(t).contains(' '),
    decreases t.len(),
{
    if t.len() > 0 {
        let t0 = t.drop_last();
        assert(!t0.contains(' ')) by {
            if t0.contains(' ') {
                let j = choose|j: int| 0 <= j < t0.len() && t0[j] == ' ';
                assert(t[j] == ' ');
            }
        }
        lemma_escape_no_space(t0);
        assert(t.last() != ' ') by {
            assert(t[t.len() - 1] == t.last());
        }
        let e0 = escape_quotes(t0);
        let e = escape_quotes(t);
        if e.contains(' ') {
            let j = choose|j: int| 0 <= j < e.len() && e[j] == ' ';
            if j < e0.len() {
                assert(e[j] == e0[j]);
            }
        }
    } else {
        assert(!Seq::<char>::empty().contains(' '));
    }
}

/// The FTS query splits at spaces into exactly one quoted prefix term per
/// word of the input, in order (no word can break out of its quotes, and
/// `lemma_match_query_roundtrip` reads each back as the word).
pub proof fn lemma_match_query_split(input: Seq<char>)
    requires
        words(input).len() > 0,
    ensures
        split_at(match_query(input), ' ') == words(input).map_values(|t: Seq<char>| quote_token(t)),
{
    let ws = words(input);
    let qs = ws.map_values(|t: Seq<char>| quote_token(t));
    lemma_split_acc_no_ws(input);
    assert forall|i: int| 0 <= i < qs.len() implies !(#[trigger] qs[i]).contains(' ') by {
        let t = ws[i];
        let (toks, cur) = split_acc(input);
        if cur.len() > 0 && i == toks.len() {
            assert(t == cur);
        } else {
            assert(t == toks[i]);
        }
        lemma_escape_no_space(t);
        let q = quote_token(t);
        assert(qs[i] == q);
        if q.contains(' ') {
            let j = choose|j: int| 0 <= j < q.len() && q[j] == ' ';
            let e = escape_quotes(t);
            if 1 <= j < 1 + e.len() {
                assert(q[j] == e[j - 1]);
            }
        }
    }
    lemma_split_join(qs, ' ');
}

/// Search words reach FTS5 intact: reading the whole query back as FTS5
/// reads quoted terms gives exactly the words of the input, in order.
pub proof fn lemma_match_query_roundtrip(input: Seq<char>)
    ensures
        read_terms(match_query(input)) == words(input),
{
    lemma_read_joined(words(input));
}

/// The FTS5 query for user input: every word as a quoted prefix term,
/// separated by single spaces.
pub open spec fn match_query(input: Seq<char>) -> Seq<char> {
    join(words(input).map_values(|t: Seq<char>| quote_token(t)), seq![' '])
}

fn quote(t: &Vec<char>) -> (res: String)
    ensures
        res@ == quote_token(t@),
{
    let mut res = String::new();
    push_char(&mut res, '"');
    let mut i: usize = 0;
    while i < t.len()
        invariant
            i <= t.len(),
            res@ == seq!['"'] + escape_quotes(t@.take(i as int)),
        decreases t.len() - i,
    {
        let c = t[i];
        proof {
            assert(t@.take(i + 1).drop_last() =~= t@.take(i as int));
        }
        if c == '"' {
            push_char(&mut res, '"');
            push_char(&mut res, '"');
        } else {
            push_char(&mut res, c);
        }
        i += 1;
        assert(res@ =~= seq!['"'] + escape_quotes(t@.take(i as int)));
    }
    push_char(&mut res, '"');
    push_char(&mut res, '*');
    assert(t@.take(t.len() as int) =~= t@);
    assert(res@ =~= quote_token(t@));
    res
}

/// Escape user input into an FTS5 prefix query: each token quoted + '*'.
pub fn to_match_query(input: &str) -> (q: String)
    ensures
        q@ == match_query(input@),
{
    let v = chars_of(input);
    let mut toks: Vec<String> = Vec::new();
    let mut cur: Vec<char> = Vec::new();
    let mut i: usize = 0;
    while i < v.len()
        invariant
            i <= v.len(),
            v@ == input@,
            views(toks@) == split_acc(v@.take(i as int)).0.map_values(
                |t: Seq<char>| quote_token(t),
            ),
            cur@ == split_acc(v@.take(i as int)).1,
        decreases v.len() - i,
    {
        let c = v[i];
        let ghost pre = split_acc(v@.take(i as int));
        proof {
            assert(v@.take(i + 1).drop_last() =~= v@.take(i as int));
        }
        if char_is_ws(c) {
            if cur.len() > 0 {
                let ghost old_toks = toks@;
                let q = quote(&cur);
                toks.push(q);
                cur = Vec::new();
                proof {
                    lemma_views_push(old_toks, toks@);
                }
                assert(views(toks@) =~= pre.0.push(pre.1).map_values(
                    |t: Seq<char>| quote_token(t),
                ));
            }
        } else {
            cur.push(c);
        }
        i += 1;
    }
    assert(v@.take(v.len() as int) =~= v@);
    if cur.len() > 0 {
        let ghost pre = split_acc(v@);
        let ghost old_toks = toks@;
        let q = quote(&cur);
        toks.push(q);
        proof {
            lemma_views_push(old_toks, toks@);
        }
        assert(views(toks@) =~= pre.0.push(pre.1).map_values(|t: Seq<char>| quote_token(t)));
    }
    assert(views(toks@) == words(input@).map_values(|t: Seq<char>| quote_token(t)));
    let q = join_strings(&toks, " ");
    proof {
        reveal_strlit(" ");
        assert(" "@ =~= seq![' ']);
    }
    q
}

/// One search result.
pub struct SearchHit {
    pub entity: String,
    pub entity_id: String,
    pub snippet: String,
}

/// Replace the indexed text of one entity.
pub fn upsert(conn: &rusqlite::Connection, entity: &str, entity_id: &str, content: &str) -> (r:
    Result<()>)
    ensures
        r matches Err(e) ==> e is Sqlite,
{
    execute(
        conn,
        "DELETE FROM fts WHERE entity = ?1 AND entity_id = ?2",
        &crate::db::texts_write(&[entity, entity_id]),
    )?;
    execute(
        conn,
        "INSERT INTO fts (content, entity, entity_id) VALUES (?1, ?2, ?3)",
        &crate::db::texts_write(&[content, entity, entity_id]),
    )?;
    Ok(())
}

/// Drop one entity from the index.
pub fn remove(conn: &rusqlite::Connection, entity: &str, entity_id: &str) -> (r: Result<()>)
    ensures
        r matches Err(e) ==> e is Sqlite,
{
    execute(
        conn,
        "DELETE FROM fts WHERE entity = ?1 AND entity_id = ?2",
        &crate::db::texts_write(&[entity, entity_id]),
    )?;
    Ok(())
}

/// Best-ranked hits for a free-text query (at most `limit`); no hits when the
/// query has no words.
pub fn query(conn: &rusqlite::Connection, q: &str, limit: i64) -> (r: Result<Vec<SearchHit>>)
    ensures
        words(q@).len() == 0 ==> (r matches Ok(v) && v.len() == 0),
        r matches Err(e) ==> e is Sqlite,
{
    let match_q = to_match_query(q);
    if match_q.as_str().is_empty() {
        proof {
            lemma_match_query_empty(q@);
        }
        return Ok(Vec::new());
    }
    proof {
        lemma_match_query_empty(q@);
    }
    let rows = crate::db::query(
        conn,
        "SELECT entity, entity_id, snippet(fts, 0, '[', ']', '…', 12)
         FROM fts WHERE fts MATCH ?1 ORDER BY rank LIMIT ?2",
        &vec![Param::Text(match_q), Param::Int(limit)],
    )?;
    let mut hits: Vec<SearchHit> = Vec::new();
    let mut i: usize = 0;
    while i < rows.len()
        invariant
            i <= rows.len(),
            words(q@).len() > 0,
        decreases rows.len() - i,
    {
        let r = &rows[i];
        hits.push(SearchHit { entity: col_text(r, 0)?, entity_id: col_text(r, 1)?, snippet: col_text(r, 2)? });
        i += 1;
    }
    Ok(hits)
}

/// IDs of one entity type matching a query, best first — used for filtered
/// list views. Empty when the query has no words.
pub fn matching_ids(conn: &rusqlite::Connection, entity: &str, q: &str) -> (r: Result<Vec<String>>)
    ensures
        words(q@).len() == 0 ==> (r matches Ok(v) && v.len() == 0),
        r matches Err(e) ==> e is Sqlite,
{
    let match_q = to_match_query(q);
    proof {
        lemma_match_query_empty(q@);
    }
    if match_q.as_str().is_empty() {
        return Ok(Vec::new());
    }
    let rows = crate::db::query(
        conn,
        "SELECT entity_id FROM fts WHERE fts MATCH ?1 AND entity = ?2 ORDER BY rank",
        &vec![Param::Text(match_q), text(entity)],
    )?;
    let mut ids: Vec<String> = Vec::new();
    let mut i: usize = 0;
    while i < rows.len()
        invariant
            i <= rows.len(),
            words(q@).len() > 0,
        decreases rows.len() - i,
    {
        ids.push(col_text(&rows[i], 0)?);
        i += 1;
    }
    Ok(ids)
}

proof fn lemma_join_empty_iff(list: Seq<Seq<char>>, sep: Seq<char>)
    requires
        forall|i: int| 0 <= i < list.len() ==> #[trigger] list[i].len() > 0,
    ensures
        (join(list, sep).len() == 0) <==> (list.len() == 0),
    decreases list.len(),
{
    if list.len() > 1 {
        lemma_join_empty_iff(list.drop_last(), sep);
        assert(list.last().len() > 0);
    } else if list.len() == 1 {
        assert(list[0].len() > 0);
    }
}

/// The FTS query is empty exactly when the input has no words.
pub proof fn lemma_match_query_empty(input: Seq<char>)
    ensures
        (match_query(input).len() == 0) <==> (words(input).len() == 0),
{
    let qs = words(input).map_values(|t: Seq<char>| quote_token(t));
    assert forall|i: int| 0 <= i < qs.len() implies #[trigger] qs[i].len() > 0 by {
        assert(qs[i] == quote_token(words(input)[i]));
    }
    lemma_join_empty_iff(qs, seq![' ']);
}

} // verus!
