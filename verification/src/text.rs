//! Character-level building blocks shared by the pipeline modules:
//! decimal rendering, zero padding and string concatenation.

use vstd::prelude::*;

verus! {

/// The ASCII digit for `d` (0..=9).
pub open spec fn digit_char(d: int) -> char {
    ((d + 48) as u8) as char
}

/// Decimal rendering of a natural number, most significant digit first,
/// without leading zeros ("0" for zero).
pub open spec fn dec(n: nat) -> Seq<char>
    decreases n,
{
    if n < 10 {
        seq![digit_char(n as int)]
    } else {
        dec(n / 10).push(digit_char((n % 10) as int))
    }
}

/// `s` left-padded with '0' up to `width` characters (unchanged when already
/// that long).
pub open spec fn zero_pad(s: Seq<char>, width: nat) -> Seq<char> {
    if s.len() >= width {
        s
    } else {
        Seq::new((width - s.len()) as nat, |_i: int| '0') + s
    }
}

/// Decimal rendering of a signed integer as `{}` prints it.
pub open spec fn dec_int(n: int) -> Seq<char> {
    if n < 0 {
        seq!['-'] + dec((-n) as nat)
    } else {
        dec(n as nat)
    }
}

/// Rendering of a signed integer as `{:0width$}` prints it: the sign comes
/// first and zeros fill the remaining width.
pub open spec fn dec_int_padded(n: int, width: nat) -> Seq<char> {
    if n < 0 {
        let w: nat = if width > 0 { (width - 1) as nat } else { 0 };
        seq!['-'] + zero_pad(dec((-n) as nat), w)
    } else {
        zero_pad(dec(n as nat), width)
    }
}

/// The number a string of decimal digits denotes, most significant first.
pub open spec fn digits_value(s: Seq<char>) -> int
    decreases s.len(),
{
    if s.len() == 0 {
        0
    } else {
        digits_value(s.drop_last()) * 10 + ((s.last() as u32) - 48)
    }
}

proof fn lemma_dec_value(n: nat)
    ensures
        digits_value(dec(n)) == n,
    decreases n,
{
    if n >= 10 {
        lemma_dec_value(n / 10);
        let d = (n % 10) as int;
        assert(0 <= d < 10);
        assert((digit_char(d) as u32) == d + 48);
        assert(dec(n) == dec(n / 10).push(digit_char(d)));
        assert(dec(n).drop_last() =~= dec(n / 10));
        assert(dec(n).last() == digit_char(d));
        assert(digits_value(dec(n)) == digits_value(dec(n / 10)) * 10 + d);
        assert(digits_value(dec((n / 10) as nat)) == n / 10);
        assert(n == (n / 10) * 10 + n % 10);
    } else {
        assert((digit_char(n as int) as u32) == n + 48);
        assert(dec(n).drop_last() =~= Seq::<char>::empty());
        assert(dec(n).last() == digit_char(n as int));
        assert(digits_value(dec(n).drop_last()) == 0);
        assert(digits_value(dec(n)) == n);
    }
}

proof fn lemma_zeros_value(k: nat)
    ensures
        digits_value(Seq::new(k, |_i: int| '0')) == 0,
    decreases k,
{
    if k > 0 {
        assert(Seq::new(k, |_i: int| '0').drop_last() =~= Seq::new((k - 1) as nat, |_i: int| '0'));
        lemma_zeros_value((k - 1) as nat);
    }
}

proof fn lemma_leading_zeros_value(k: nat, s: Seq<char>)
    ensures
        digits_value(Seq::new(k, |_i: int| '0') + s) == digits_value(s),
    decreases s.len(),
{
    let z = Seq::new(k, |_i: int| '0');
    if s.len() == 0 {
        assert(z + s =~= z);
        lemma_zeros_value(k);
    } else {
        assert((z + s).drop_last() =~= z + s.drop_last());
        assert((z + s).last() == s.last());
        lemma_leading_zeros_value(k, s.drop_last());
    }
}

/// A zero-padded rendering denotes the number it renders.
pub proof fn lemma_padded_value(n: nat, width: nat)
    ensures
        digits_value(zero_pad(dec(n), width)) == n,
{
    lemma_dec_value(n);
    let d = dec(n);
    if d.len() < width {
        lemma_leading_zeros_value((width - d.len()) as nat, d);
    }
}

/// Appends one character (std `String::push`).
#[verifier::external_body]
pub(crate) fn push_char(s: &mut String, c: char)
    ensures
        final(s)@ == old(s)@.push(c),
{
    s.push(c);
}

/// A fresh `String` holding the characters of `s`.
pub fn owned(s: &str) -> (res: String)
    ensures
        res@ == s@,
{
    String::from_str(s)
}

/// Concatenation of two string slices.
pub fn concat2(a: &str, b: &str) -> (res: String)
    ensures
        res@ == a@ + b@,
{
    let mut r = String::from_str(a);
    r.append(b);
    r
}

/// Concatenation of three string slices.
pub fn concat3(a: &str, b: &str, c: &str) -> (res: String)
    ensures
        res@ == a@ + b@ + c@,
{
    let mut r = String::from_str(a);
    r.append(b);
    r.append(c);
    r
}

/// Appends the decimal digits of `n` to `out`.
pub fn push_dec(out: &mut String, n: u64)
    ensures
        final(out)@ == old(out)@ + dec(n as nat),
    decreases n,
{
    if n >= 10 {
        push_dec(out, n / 10);
    }
    let d: u8 = (n % 10) as u8;
    push_char(out, (d + 48u8) as char);
    proof {
        if n >= 10 {
            assert(dec(n as nat) == dec((n / 10) as nat).push(digit_char((n % 10) as int)));
        }
    }
    assert(final(out)@ =~= old(out)@ + dec(n as nat));
}

/// Decimal digits of `n`.
pub fn u64_to_dec(n: u64) -> (res: String)
    ensures
        res@ == dec(n as nat),
{
    let mut res = String::new();
    push_dec(&mut res, n);
    assert(res@ =~= dec(n as nat));
    res
}

/// Appends `n` copies of '0'.
pub fn push_zeros(out: &mut String, n: usize)
    ensures
        final(out)@ == old(out)@ + Seq::new(n as nat, |_i: int| '0'),
{
    let mut k: usize = 0;
    while k < n
        invariant
            k <= n,
            out@ == old(out)@ + Seq::new(k as nat, |_i: int| '0'),
        decreases n - k,
    {
        push_char(out, '0');
        k += 1;
        assert(out@ =~= old(out)@ + Seq::new(k as nat, |_i: int| '0'));
    }
}

/// Appends `n` as `{:0width$}` renders it.
pub fn push_int_padded(out: &mut String, n: i128, width: usize)
    requires
        -0x1_0000_0000_0000_0000 < n < 0x1_0000_0000_0000_0000,
    ensures
        final(out)@ == old(out)@ + dec_int_padded(n as int, width as nat),
{
    let mag: u64 = if n < 0 {
        (-n) as u64
    } else {
        n as u64
    };
    let digits = u64_to_dec(mag);
    let len = chars_of(digits.as_str()).len();
    let w: usize = if n < 0 {
        if width > 0 {
            width - 1
        } else {
            0
        }
    } else {
        width
    };
    if n < 0 {
        push_char(out, '-');
    }
    let ghost mid = out@;
    if len < w {
        push_zeros(out, w - len);
    }
    out.append(digits.as_str());
    proof {
        let d = dec(mag as nat);
        if len < w {
            assert(out@ =~= mid + zero_pad(d, w as nat));
        } else {
            assert(out@ =~= mid + zero_pad(d, w as nat));
        }
        if n < 0 {
            assert(mag as int == -(n as int));
            assert(out@ =~= old(out)@ + dec_int_padded(n as int, width as nat));
        } else {
            assert(out@ =~= old(out)@ + dec_int_padded(n as int, width as nat));
        }
    }
}

/// Appends `n` as `{}` renders it.
pub fn push_int(out: &mut String, n: i64)
    ensures
        final(out)@ == old(out)@ + dec_int(n as int),
{
    if n < 0 {
        push_char(out, '-');
        push_dec(out, (-(n as i128)) as u64);
    } else {
        push_dec(out, n as u64);
    }
    assert(final(out)@ =~= old(out)@ + dec_int(n as int));
}

/// Lexicographic order of character sequences by code point — the order of
/// `str`'s `<` (UTF-8 byte order is code point order).
pub open spec fn seq_lt(a: Seq<char>, b: Seq<char>) -> bool
    decreases a.len(),
{
    if a.len() == 0 {
        b.len() > 0
    } else if b.len() == 0 {
        false
    } else if a[0] != b[0] {
        (a[0] as u32) < (b[0] as u32)
    } else {
        seq_lt(a.drop_first(), b.drop_first())
    }
}

/// `seq_lt` is a strict total order.
pub proof fn lemma_seq_lt_total(a: Seq<char>, b: Seq<char>)
    ensures
        !seq_lt(a, a),
        seq_lt(a, b) ==> !seq_lt(b, a),
        seq_lt(a, b) || seq_lt(b, a) || a == b,
    decreases a.len(),
{
    if a.len() > 0 && b.len() > 0 {
        lemma_seq_lt_total(a.drop_first(), b.drop_first());
        lemma_seq_lt_total(a.drop_first(), a.drop_first());
        if a[0] == b[0] && a.drop_first() == b.drop_first() {
            assert(a =~= seq![a[0]] + a.drop_first());
            assert(b =~= seq![b[0]] + b.drop_first());
        }
        if a[0] != b[0] {
            vstd::utf8::char_u32_cast(a[0], a[0] as u32);
            vstd::utf8::char_u32_cast(b[0], b[0] as u32);
        }
    } else if a.len() > 0 {
        lemma_seq_lt_total(a.drop_first(), a.drop_first());
    } else if b.len() == 0 {
        assert(a =~= b);
    }
}

/// `seq_lt` is transitive.
pub proof fn lemma_seq_lt_trans(a: Seq<char>, b: Seq<char>, c: Seq<char>)
    requires
        seq_lt(a, b),
        seq_lt(b, c),
    ensures
        seq_lt(a, c),
    decreases a.len(),
{
    if a.len() > 0 && b.len() > 0 && c.len() > 0 && a[0] == b[0] && b[0] == c[0] {
        lemma_seq_lt_trans(a.drop_first(), b.drop_first(), c.drop_first());
    }
}

/// Whether `a` sorts strictly before `b` (`str`'s `<`).
pub fn str_lt(a: &str, b: &str) -> (r: bool)
    ensures
        r == seq_lt(a@, b@),
{
    let va = chars_of(a);
    let vb = chars_of(b);
    let mut i: usize = 0;
    assert(a@.skip(0) =~= a@);
    assert(b@.skip(0) =~= b@);
    while i < va.len() && i < vb.len() && va[i] == vb[i]
        invariant
            va@ == a@,
            vb@ == b@,
            i <= va.len(),
            i <= vb.len(),
            seq_lt(a@, b@) == seq_lt(a@.skip(i as int), b@.skip(i as int)),
        decreases va.len() - i,
    {
        proof {
            let sa = a@.skip(i as int);
            let sb = b@.skip(i as int);
            assert(sa.drop_first() =~= a@.skip(i + 1));
            assert(sb.drop_first() =~= b@.skip(i + 1));
        }
        i += 1;
    }
    if i == va.len() {
        i < vb.len()
    } else if i == vb.len() {
        false
    } else {
        (va[i] as u32) < (vb[i] as u32)
    }
}

/// The characters of `s`, in order.
pub fn chars_of(s: &str) -> (v: Vec<char>)
    ensures
        v@ == s@,
{
    broadcast use vstd::string::group_string_axioms;
    let mut v: Vec<char> = Vec::new();
    for c in it: s.chars()
        invariant
            v@ == it.seq().take(it.index() as int),
    {
        v.push(c);
        assert(v@ =~= it.seq().take(it.index() + 1));
    }
    assert(v@ =~= s@);
    v
}

/// Unicode `White_Space`: the characters `char::is_whitespace` accepts and
/// `str::trim` / `str::split_whitespace` treat as separators.
pub open spec fn is_ws(c: char) -> bool {
    let u = c as u32;
    ||| 0x9 <= u <= 0xd
    ||| u == 0x20
    ||| u == 0x85
    ||| u == 0xa0
    ||| u == 0x1680
    ||| 0x2000 <= u <= 0x200a
    ||| u == 0x2028
    ||| u == 0x2029
    ||| u == 0x202f
    ||| u == 0x205f
    ||| u == 0x3000
}

/// Whether `c` is Unicode white space.
pub fn char_is_ws(c: char) -> (b: bool)
    ensures
        b == is_ws(c),
{
    let u = c as u32;
    (0x9 <= u && u <= 0xd) || u == 0x20 || u == 0x85 || u == 0xa0 || u == 0x1680 || (0x2000 <= u
        && u <= 0x200a) || u == 0x2028 || u == 0x2029 || u == 0x202f || u == 0x205f || u == 0x3000
}

/// `s` without its leading white space.
pub open spec fn trim_start(s: Seq<char>) -> Seq<char>
    decreases s.len(),
{
    if s.len() > 0 && is_ws(s[0]) {
        trim_start(s.drop_first())
    } else {
        s
    }
}

/// `s` without its trailing white space.
pub open spec fn trim_end(s: Seq<char>) -> Seq<char>
    decreases s.len(),
{
    if s.len() > 0 && is_ws(s.last()) {
        trim_end(s.drop_last())
    } else {
        s
    }
}

/// `s` with leading and trailing white space removed (`str::trim`).
pub open spec fn trim(s: Seq<char>) -> Seq<char> {
    trim_end(trim_start(s))
}

proof fn lemma_trim_start_skip(s: Seq<char>, i: int)
    requires
        0 <= i <= s.len(),
        forall|j: int| 0 <= j < i ==> is_ws(#[trigger] s[j]),
    ensures
        trim_start(s) == trim_start(s.subrange(i, s.len() as int)),
    decreases i,
{
    if i > 0 {
        assert(s.drop_first().subrange(i - 1, s.drop_first().len() as int) =~= s.subrange(
            i,
            s.len() as int,
        ));
        lemma_trim_start_skip(s.drop_first(), i - 1);
    } else {
        assert(s.subrange(0, s.len() as int) =~= s);
    }
}

proof fn lemma_trim_end_skip(s: Seq<char>, k: int)
    requires
        0 <= k <= s.len(),
        forall|j: int| k <= j < s.len() ==> is_ws(#[trigger] s[j]),
    ensures
        trim_end(s) == trim_end(s.subrange(0, k)),
    decreases s.len() - k,
{
    if k < s.len() {
        assert(s.drop_last().subrange(0, k) =~= s.subrange(0, k));
        lemma_trim_end_skip(s.drop_last(), k);
    } else {
        assert(s.subrange(0, k) =~= s);
    }
}

/// Appends `s[from..to]` to `out`.
pub fn push_range(out: &mut String, s: &Vec<char>, from: usize, to: usize)
    requires
        from <= to <= s.len(),
    ensures
        final(out)@ == old(out)@ + s@.subrange(from as int, to as int),
{
    let mut i = from;
    while i < to
        invariant
            from <= i <= to <= s.len(),
            out@ == old(out)@ + s@.subrange(from as int, i as int),
        decreases to - i,
    {
        push_char(out, s[i]);
        i += 1;
        assert(out@ =~= old(out)@ + s@.subrange(from as int, i as int));
    }
}

/// `s` with leading and trailing white space removed, as an owned string.
pub fn trimmed(s: &str) -> (res: String)
    ensures
        res@ == trim(s@),
{
    let v = chars_of(s);
    let mut i: usize = 0;
    while i < v.len() && char_is_ws(v[i])
        invariant
            i <= v.len(),
            v@ == s@,
            forall|j: int| 0 <= j < i ==> is_ws(#[trigger] v@[j]),
        decreases v.len() - i,
    {
        i += 1;
    }
    proof {
        lemma_trim_start_skip(s@, i as int);
        let rest = s@.subrange(i as int, s@.len() as int);
        if rest.len() > 0 {
            assert(rest[0] == v@[i as int]);
        }
    }
    let mut k: usize = v.len();
    while k > i && char_is_ws(v[k - 1])
        invariant
            i <= k <= v.len(),
            v@ == s@,
            forall|j: int| k <= j < v.len() ==> is_ws(#[trigger] v@[j]),
        decreases k,
    {
        k -= 1;
    }
    let ghost rest = s@.subrange(i as int, s@.len() as int);
    proof {
        assert forall|j: int| k - i <= j < rest.len() implies is_ws(#[trigger] rest[j]) by {
            assert(rest[j] == v@[i + j]);
        }
        lemma_trim_end_skip(rest, k - i);
        assert(rest.subrange(0, k - i) =~= s@.subrange(i as int, k as int));
        let r2 = s@.subrange(i as int, k as int);
        if r2.len() > 0 {
            assert(r2.last() == v@[k - 1]);
        }
    }
    let mut res = String::new();
    push_range(&mut res, &v, i, k);
    assert(res@ =~= s@.subrange(i as int, k as int));
    res
}

/// Whether `s` is empty once white space is trimmed.
pub fn is_blank(s: &str) -> (b: bool)
    ensures
        b == (trim(s@).len() == 0),
{
    let t = trimmed(s);
    t.as_str().is_empty()
}

/// The result of `str::to_lowercase` on a string: full Unicode lower-casing.
pub uninterp spec fn lowercase(s: Seq<char>) -> Seq<char>;

/// The result of `str::to_uppercase` on a string: full Unicode upper-casing.
pub uninterp spec fn uppercase(s: Seq<char>) -> Seq<char>;

/// std `str::to_lowercase`; its result is named `lowercase`, a function of the
/// characters alone (Unicode case tables).
#[verifier::external_body]
pub fn to_lower(s: &str) -> (res: String)
    ensures
        res@ == lowercase(s@),
{
    s.to_lowercase()
}

/// std `str::to_uppercase`; its result is named `uppercase`, a function of the
/// characters alone (Unicode case tables).
#[verifier::external_body]
pub fn to_upper(s: &str) -> (res: String)
    ensures
        res@ == uppercase(s@),
{
    s.to_uppercase()
}

/// Whether two string slices hold the same characters.
pub fn str_eq(a: &str, b: &str) -> (r: bool)
    ensures
        r == (a@ == b@),
{
    let va = chars_of(a);
    let vb = chars_of(b);
    if va.len() != vb.len() {
        return false;
    }
    let mut i: usize = 0;
    while i < va.len()
        invariant
            va@ == a@,
            vb@ == b@,
            va.len() == vb.len(),
            i <= va.len(),
            forall|j: int| 0 <= j < i ==> va@[j] == vb@[j],
        decreases va.len() - i,
    {
        if va[i] != vb[i] {
            return false;
        }
        i += 1;
    }
    assert(a@ =~= b@);
    true
}

/// The elements of `list` joined by `sep`.
pub open spec fn join(list: Seq<Seq<char>>, sep: Seq<char>) -> Seq<char>
    decreases list.len(),
{
    if list.len() == 0 {
        Seq::empty()
    } else if list.len() == 1 {
        list[0]
    } else {
        join(list.drop_last(), sep) + sep + list.last()
    }
}

/// The view of an optional string.
pub open spec fn opt_view(o: Option<String>) -> Option<Seq<char>> {
    match o {
        Some(s) => Some(s@),
        None => None,
    }
}

/// The view of an optional string slice.
pub open spec fn opt_view_str(o: Option<&str>) -> Option<Seq<char>> {
    match o {
        Some(s) => Some(s@),
        None => None,
    }
}

/// The views of a list of strings.
pub open spec fn views(v: Seq<String>) -> Seq<Seq<char>> {
    v.map_values(|s: String| s@)
}

/// Pushing a string onto a list pushes its view onto the views.
pub proof fn lemma_views_push(a: Seq<String>, b: Seq<String>)
    requires
        b.len() == a.len() + 1,
        forall|j: int| 0 <= j < a.len() ==> b[j] == a[j],
    ensures
        views(b) =~= views(a).push(b.last()@),
{
    assert forall|j: int| 0 <= j < b.len() implies #[trigger] views(b)[j] == views(a).push(
        b.last()@,
    )[j] by {
        if j < a.len() {
            assert(b[j] == a[j]);
        }
    }
}

/// `list` joined by `sep` (`[String]::join`).
pub fn join_strings(list: &[String], sep: &str) -> (res: String)
    ensures
        res@ == join(views(list@), sep@),
{
    let mut res = String::new();
    let mut i: usize = 0;
    while i < list.len()
        invariant
            i <= list.len(),
            res@ == join(views(list@).take(i as int), sep@),
        decreases list.len() - i,
    {
        let ghost before = views(list@).take(i as int);
        if i > 0 {
            res.append(sep);
        }
        res.append(list[i].as_str());
        proof {
            let after = views(list@).take(i + 1);
            assert(after.drop_last() =~= before);
            if i == 0 {
                assert(res@ =~= after[0]);
            }
        }
        i += 1;
    }
    assert(views(list@).take(list.len() as int) =~= views(list@));
    res
}

} // verus!
