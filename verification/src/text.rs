//! Character-level text helpers: conversion between `&str`, `String` and
//! character vectors, Unicode whitespace, splitting, searching, trimming,
//! and decimal integers.
use vstd::prelude::*;
use vstd::string::*;

verus! {

/// Unicode `White_Space` property, the set that `char::is_whitespace`
/// (and so `str::split_whitespace` and `str::trim`) uses.
pub open spec fn is_space(c: char) -> bool {
    let u = c as u32;
    ||| 0x09 <= u <= 0x0d
    ||| u == 0x20
    ||| u == 0x85
    ||| u == 0xa0
    ||| u == 0x1680
    ||| 0x2000 <= u <= 0x200a
    ||| u == 0x2028
    ||| u == 0x2029
    ||| u == 0x202f
    ||| u == 0x205f
    ||| u == 0x3000
}

pub fn is_whitespace(c: char) -> (b: bool)
    ensures
        b == is_space(c),
{
    let u = c as u32;
    (0x09 <= u && u <= 0x0d) || u == 0x20 || u == 0x85 || u == 0xa0 || u == 0x1680 || (0x2000
        <= u && u <= 0x200a) || u == 0x2028 || u == 0x2029 || u == 0x202f || u == 0x205f || u
        == 0x3000
}

/// The characters of `s`, in order.
pub fn chars_of(s: &str) -> (v: Vec<char>)
    ensures
        v@ == s@,
{
    let n = s.unicode_len();
    let mut v: Vec<char> = Vec::new();
    let mut i: usize = 0;
    while i < n
        invariant
            n == s@.len(),
            i <= n,
            v@ == s@.subrange(0, i as int),
        decreases n - i,
    {
        let c = s.get_char(i);
        v.push(c);
        i = i + 1;
        assert(v@ =~= s@.subrange(0, i as int));
    }
    assert(v@ =~= s@);
    v
}

/// Appends one character to a string (`String::push`).
#[verifier::external_body]
fn push_char(s: &mut String, c: char)
    ensures
        final(s)@ == old(s)@.push(c),
{
    s.push(c)
}

/// The string made of the characters `v`.
pub fn string_of(v: &[char]) -> (s: String)
    ensures
        s@ == v@,
{
    let mut s = String::new();
    let mut i: usize = 0;
    while i < v.len()
        invariant
            i <= v@.len(),
            s@ == v@.subrange(0, i as int),
        decreases v@.len() - i,
    {
        push_char(&mut s, v[i]);
        i = i + 1;
        assert(s@ =~= v@.subrange(0, i as int));
    }
    assert(s@ =~= v@);
    s
}

/// An owned copy of a string slice.
pub fn owned(s: &str) -> (r: String)
    ensures
        r@ == s@,
{
    String::from_str(s)
}

/// `a + b` as a new string.
pub fn concat2(a: &str, b: &str) -> (r: String)
    ensures
        r@ == a@ + b@,
{
    let mut r = String::from_str(a);
    r.append(b);
    r
}

/// `a + b + c` as a new string.
pub fn concat3(a: &str, b: &str, c: &str) -> (r: String)
    ensures
        r@ == a@ + b@ + c@,
{
    let mut r = String::from_str(a);
    r.append(b);
    r.append(c);
    r
}

/// Character-wise equality of two strings.
pub fn str_eq(a: &str, b: &str) -> (r: bool)
    ensures
        r == (a@ == b@),
{
    let x = String::from_str(a);
    let y = String::from_str(b);
    x == y
}

/// Whether the characters `w` spell `s`.
pub fn word_is(w: &[char], s: &str) -> (b: bool)
    ensures
        b == (w@ == s@),
{
    let ws = string_of(w);
    str_eq(ws.as_str(), s)
}

/// `p` is a prefix of `s` (`str::starts_with`).
pub open spec fn has_prefix(s: Seq<char>, p: Seq<char>) -> bool {
    p.len() <= s.len() && s.subrange(0, p.len() as int) == p
}

pub fn starts_with(s: &[char], p: &[char]) -> (b: bool)
    ensures
        b == has_prefix(s@, p@),
{
    if p.len() > s.len() {
        return false;
    }
    let mut i: usize = 0;
    while i < p.len()
        invariant
            p@.len() <= s@.len(),
            i <= p@.len(),
            forall|j: int| 0 <= j < i ==> s@[j] == p@[j],
        decreases p@.len() - i,
    {
        if s[i] != p[i] {
            assert(s@.subrange(0, p@.len() as int)[i as int] != p@[i as int]);
            return false;
        }
        i = i + 1;
    }
    assert(s@.subrange(0, p@.len() as int) =~= p@);
    true
}

/// The strings of `list` with `sep` between each two (`[..].join(sep)`).
pub open spec fn join(list: Seq<Seq<char>>, sep: Seq<char>) -> Seq<char>
    decreases list.len(),
{
    if list.len() == 0 {
        seq![]
    } else if list.len() == 1 {
        list[0]
    } else {
        join(list.drop_last(), sep) + sep + list.last()
    }
}

pub fn join_strings(list: &Vec<String>, sep: &str) -> (r: String)
    ensures
        r@ == join(list@.map_values(|s: String| s@), sep@),
{
    let ghost views = list@.map_values(|s: String| s@);
    let mut r = String::new();
    let mut i: usize = 0;
    while i < list.len()
        invariant
            i <= list@.len(),
            views == list@.map_values(|s: String| s@),
            r@ == join(views.subrange(0, i as int), sep@),
        decreases list@.len() - i,
    {
        if i > 0 {
            r.append(sep);
        }
        r.append(list[i].as_str());
        proof {
            let pre = views.subrange(0, i + 1);
            assert(pre.drop_last() =~= views.subrange(0, i as int));
            if i == 0 {
                assert(r@ =~= join(pre, sep@));
            }
        }
        i = i + 1;
    }
    assert(views.subrange(0, list@.len() as int) =~= views);
    r
}

/// Index of the first occurrence of `c` in `s`, if any.
pub open spec fn first_index(s: Seq<char>, c: char) -> Option<int>
    decreases s.len(),
{
    if s.len() == 0 {
        None
    } else if s[0] == c {
        Some(0)
    } else {
        match first_index(s.drop_first(), c) {
            Some(i) => Some(i + 1),
            None => None,
        }
    }
}

pub proof fn lemma_first_index(s: Seq<char>, c: char)
    ensures
        match first_index(s, c) {
            Some(i) => 0 <= i < s.len() && s[i] == c && forall|j: int| 0 <= j < i ==> s[j] != c,
            None => forall|j: int| 0 <= j < s.len() ==> s[j] != c,
        },
    decreases s.len(),
{
    if s.len() > 0 && s[0] != c {
        lemma_first_index(s.drop_first(), c);
        assert forall|j: int| 1 <= j < s.len() implies s[j] == s.drop_first()[j - 1] by {}
    }
}

/// Position of the first `c` in `v`.
pub fn find_char(v: &[char], c: char) -> (r: Option<usize>)
    ensures
        match r {
            Some(i) => first_index(v@, c) == Some(i as int),
            None => first_index(v@, c) is None,
        },
        r matches Some(i) ==> i < v@.len() && v@[i as int] == c,
{
    proof {
        lemma_first_index(v@, c);
    }
    let mut i: usize = 0;
    while i < v.len()
        invariant
            i <= v@.len(),
            forall|j: int| 0 <= j < i ==> v@[j] != c,
            match first_index(v@, c) {
                Some(k) => 0 <= k < v@.len() && v@[k] == c && forall|j: int|
                    0 <= j < k ==> v@[j] != c,
                None => forall|j: int| 0 <= j < v@.len() ==> v@[j] != c,
            },
        decreases v@.len() - i,
    {
        if v[i] == c {
            return Some(i);
        }
        i = i + 1;
    }
    None
}

/// `v[from..to]` as a new vector.
pub fn slice_chars(v: &[char], from: usize, to: usize) -> (r: Vec<char>)
    requires
        from <= to <= v@.len(),
    ensures
        r@ == v@.subrange(from as int, to as int),
{
    let mut r: Vec<char> = Vec::new();
    let mut i = from;
    while i < to
        invariant
            from <= i <= to <= v@.len(),
            r@ == v@.subrange(from as int, i as int),
        decreases to - i,
    {
        r.push(v[i]);
        i = i + 1;
        assert(r@ =~= v@.subrange(from as int, i as int));
    }
    r
}

/// Words and pending word after scanning `s` as `split_whitespace` does.
pub open spec fn words_scan(s: Seq<char>) -> (Seq<Seq<char>>, Seq<char>)
    decreases s.len(),
{
    if s.len() == 0 {
        (seq![], seq![])
    } else {
        let (ws, cur) = words_scan(s.drop_last());
        if is_space(s.last()) {
            if cur.len() > 0 {
                (ws.push(cur), seq![])
            } else {
                (ws, seq![])
            }
        } else {
            (ws, cur.push(s.last()))
        }
    }
}

/// The maximal runs of non-whitespace characters of `s` (`str::split_whitespace`).
pub open spec fn words(s: Seq<char>) -> Seq<Seq<char>> {
    let (ws, cur) = words_scan(s);
    if cur.len() > 0 {
        ws.push(cur)
    } else {
        ws
    }
}

pub fn split_whitespace(v: &[char]) -> (r: Vec<Vec<char>>)
    ensures
        r@.len() == words(v@).len(),
        forall|i: int| 0 <= i < r@.len() ==> #[trigger] r@[i]@ == words(v@)[i],
{
    let mut ws: Vec<Vec<char>> = Vec::new();
    let mut cur: Vec<char> = Vec::new();
    let mut i: usize = 0;
    while i < v.len()
        invariant
            i <= v@.len(),
            ws@.len() == words_scan(v@.subrange(0, i as int)).0.len(),
            forall|k: int|
                0 <= k < ws@.len() ==> #[trigger] ws@[k]@ == words_scan(
                    v@.subrange(0, i as int),
                ).0[k],
            cur@ == words_scan(v@.subrange(0, i as int)).1,
        decreases v@.len() - i,
    {
        let c = v[i];
        let ghost pre = v@.subrange(0, i as int);
        assert(v@.subrange(0, i + 1).drop_last() =~= pre);
        assert(v@.subrange(0, i + 1).last() == c);
        if is_whitespace(c) {
            if cur.len() > 0 {
                ws.push(cur);
                cur = Vec::new();
            }
        } else {
            cur.push(c);
        }
        i = i + 1;
    }
    assert(v@.subrange(0, v@.len() as int) =~= v@);
    if cur.len() > 0 {
        ws.push(cur);
    }
    ws
}

/// Pieces and pending piece after scanning `s` as `str::split(sep)` does.
pub open spec fn split_scan(s: Seq<char>, sep: char) -> (Seq<Seq<char>>, Seq<char>)
    decreases s.len(),
{
    if s.len() == 0 {
        (seq![], seq![])
    } else {
        let (ps, cur) = split_scan(s.drop_last(), sep);
        if s.last() == sep {
            (ps.push(cur), seq![])
        } else {
            (ps, cur.push(s.last()))
        }
    }
}

/// The pieces of `s` between occurrences of `sep` (`str::split(sep)`); there is
/// always at least one piece.
pub open spec fn pieces(s: Seq<char>, sep: char) -> Seq<Seq<char>> {
    let (ps, cur) = split_scan(s, sep);
    ps.push(cur)
}

pub fn split_on(v: &[char], sep: char) -> (r: Vec<Vec<char>>)
    ensures
        r@.len() == pieces(v@, sep).len(),
        forall|i: int| 0 <= i < r@.len() ==> #[trigger] r@[i]@ == pieces(v@, sep)[i],
{
    let mut ps: Vec<Vec<char>> = Vec::new();
    let mut cur: Vec<char> = Vec::new();
    let mut i: usize = 0;
    while i < v.len()
        invariant
            i <= v@.len(),
            ps@.len() == split_scan(v@.subrange(0, i as int), sep).0.len(),
            forall|k: int|
                0 <= k < ps@.len() ==> #[trigger] ps@[k]@ == split_scan(
                    v@.subrange(0, i as int),
                    sep,
                ).0[k],
            cur@ == split_scan(v@.subrange(0, i as int), sep).1,
        decreases v@.len() - i,
    {
        let c = v[i];
        let ghost pre = v@.subrange(0, i as int);
        assert(v@.subrange(0, i + 1).drop_last() =~= pre);
        assert(v@.subrange(0, i + 1).last() == c);
        if c == sep {
            ps.push(cur);
            cur = Vec::new();
        } else {
            cur.push(c);
        }
        i = i + 1;
    }
    assert(v@.subrange(0, v@.len() as int) =~= v@);
    ps.push(cur);
    ps
}

/// Number of leading whitespace characters of `s`.
pub open spec fn lead_spaces(s: Seq<char>) -> nat
    decreases s.len(),
{
    if s.len() > 0 && is_space(s[0]) {
        1 + lead_spaces(s.drop_first())
    } else {
        0
    }
}

/// Number of trailing whitespace characters of `s`.
pub open spec fn trail_spaces(s: Seq<char>) -> nat
    decreases s.len(),
{
    if s.len() > 0 && is_space(s.last()) {
        1 + trail_spaces(s.drop_last())
    } else {
        0
    }
}

/// `s` without leading and trailing whitespace (`str::trim`).
pub open spec fn trimmed(s: Seq<char>) -> Seq<char> {
    let a = lead_spaces(s);
    let rest = s.subrange(a as int, s.len() as int);
    rest.subrange(0, rest.len() - trail_spaces(rest))
}

proof fn lemma_lead_spaces(s: Seq<char>)
    ensures
        lead_spaces(s) <= s.len(),
    decreases s.len(),
{
    if s.len() > 0 && is_space(s[0]) {
        lemma_lead_spaces(s.drop_first());
    }
}

proof fn lemma_trail_spaces(s: Seq<char>)
    ensures
        trail_spaces(s) <= s.len(),
    decreases s.len(),
{
    if s.len() > 0 && is_space(s.last()) {
        lemma_trail_spaces(s.drop_last());
    }
}

pub fn trim(v: &[char]) -> (r: Vec<char>)
    ensures
        r@ == trimmed(v@),
{
    let n = v.len();
    let mut a: usize = 0;
    assert(v@.subrange(0, n as int) =~= v@);
    while a < n && is_whitespace(v[a])
        invariant
            a <= n == v@.len(),
            lead_spaces(v@) == a + lead_spaces(v@.subrange(a as int, n as int)),
        decreases n - a,
    {
        assert(v@.subrange(a as int, n as int).drop_first() =~= v@.subrange(a + 1, n as int));
        a = a + 1;
    }
    let ghost rest = v@.subrange(a as int, n as int);
    assert(lead_spaces(rest) == 0);
    let mut b: usize = n;
    while b > a && is_whitespace(v[b - 1])
        invariant
            a <= b <= n == v@.len(),
            rest == v@.subrange(a as int, n as int),
            trail_spaces(rest) == (n - b) + trail_spaces(v@.subrange(a as int, b as int)),
        decreases b - a,
    {
        assert(v@.subrange(a as int, b as int).drop_last() =~= v@.subrange(a as int, b - 1));
        b = b - 1;
    }
    assert(trail_spaces(v@.subrange(a as int, b as int)) == 0);
    assert(rest.subrange(0, rest.len() - trail_spaces(rest)) =~= v@.subrange(a as int, b as int));
    slice_chars(v, a, b)
}

} // verus!
