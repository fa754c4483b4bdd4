//! Character-level text handling: conversion between strings and character
//! vectors, Unicode whitespace, trimming, splitting and searching.
use vstd::prelude::*;

verus! {

/// Appends one character to a string (`String::push`).
#[verifier::external_body]
pub(crate) fn push_char(s: &mut String, c: char)
    ensures
        final(s)@ == old(s)@.push(c),
{
    s.push(c);
}

/// The characters of a string, in order.
pub fn chars_of(s: &str) -> (v: Vec<char>)
    ensures
        v@ == s@,
{
    let mut v: Vec<char> = Vec::new();
    for c in it: s.chars()
        invariant
            v@ == it.seq().take(it.index() as int),
    {
        v.push(c);
    }
    v
}

/// The string made of the characters `v[from..to]`.
pub fn string_of(v: &Vec<char>, from: usize, to: usize) -> (s: String)
    requires
        from <= to <= v.len(),
    ensures
        s@ == v@.subrange(from as int, to as int),
{
    let mut s = String::new();
    let mut i = from;
    while i < to
        invariant
            from <= i <= to <= v.len(),
            s@ == v@.subrange(from as int, i as int),
        decreases to - i,
    {
        push_char(&mut s, v[i]);
        assert(v@.subrange(from as int, i + 1) == v@.subrange(from as int, i as int).push(v@[i as int]));
        i = i + 1;
    }
    s
}

/// Appends the string `t` to `s`.
pub fn append_str(s: &mut String, t: &str)
    ensures
        final(s)@ == old(s)@ + t@,
{
    let cs = chars_of(t);
    let ghost start = s@;
    let mut i: usize = 0;
    while i < cs.len()
        invariant
            i <= cs.len(),
            cs@ == t@,
            s@ == start + cs@.take(i as int),
        decreases cs.len() - i,
    {
        push_char(s, cs[i]);
        assert(cs@.take(i + 1) == cs@.take(i as int).push(cs@[i as int]));
        i = i + 1;
    }
    assert(cs@.take(cs.len() as int) == cs@);
}

/// A copy of the string `t`.
pub fn copy_str(t: &str) -> (s: String)
    ensures
        s@ == t@,
{
    let mut s = String::new();
    append_str(&mut s, t);
    s
}

/// Unicode `White_Space`, as `char::is_whitespace` decides it.
pub open spec fn is_white(c: char) -> bool {
    let u = c as u32;
    ||| 0x09 <= u <= 0x0d
    ||| u == 0x20
    ||| u == 0x85
    ||| u == 0xa0
    ||| u == 0x1680
    ||| 0x2000 <= u <= 0x200a
    ||| u == 0x2028
    ||| u == 0x2029
    ||| u == 0x202f
    ||| u == 0x205f
    ||| u == 0x3000
}

/// Decides `is_white`.
pub fn white(c: char) -> (b: bool)
    ensures
        b == is_white(c),
{
    let u = c as u32;
    (0x09 <= u && u <= 0x0d) || u == 0x20 || u == 0x85 || u == 0xa0 || u == 0x1680 || (0x2000
        <= u && u <= 0x200a) || u == 0x2028 || u == 0x2029 || u == 0x202f || u == 0x205f || u
        == 0x3000
}

/// `s` without its leading whitespace.
pub open spec fn trim_start(s: Seq<char>) -> Seq<char>
    decreases s.len(),
{
    if s.len() > 0 && is_white(s[0]) {
        trim_start(s.drop_first())
    } else {
        s
    }
}

/// `s` without its trailing whitespace.
pub open spec fn trim_end(s: Seq<char>) -> Seq<char>
    decreases s.len(),
{
    if s.len() > 0 && is_white(s.last()) {
        trim_end(s.drop_last())
    } else {
        s
    }
}

/// `s` without leading and trailing whitespace (`str::trim`).
pub open spec fn trim(s: Seq<char>) -> Seq<char> {
    trim_end(trim_start(s))
}

proof fn lemma_trim_start_step(s: Seq<char>, i: int)
    requires
        0 <= i < s.len(),
        is_white(s[i]),
    ensures
        trim_start(s.subrange(i, s.len() as int)) == trim_start(s.subrange(i + 1, s.len() as int)),
{
    assert(s.subrange(i, s.len() as int).drop_first() =~= s.subrange(i + 1, s.len() as int));
}

proof fn lemma_trim_end_step(s: Seq<char>, j: int)
    requires
        0 < j <= s.len(),
        is_white(s[j - 1]),
    ensures
        trim_end(s.subrange(0, j)) == trim_end(s.subrange(0, j - 1)),
{
    assert(s.subrange(0, j).drop_last() =~= s.subrange(0, j - 1));
}

/// Bounds `(a, b)` such that `v[a..b]` is `v[from..to]` trimmed.
pub fn trim_bounds(v: &Vec<char>, from: usize, to: usize) -> (r: (usize, usize))
    requires
        from <= to <= v.len(),
    ensures
        from <= r.0 <= r.1 <= to,
        v@.subrange(r.0 as int, r.1 as int) == trim(v@.subrange(from as int, to as int)),
{
    let ghost s = v@.subrange(from as int, to as int);
    let mut a = from;
    while a < to && white(v[a])
        invariant
            from <= a <= to <= v.len(),
            s == v@.subrange(from as int, to as int),
            trim_start(s) == trim_start(v@.subrange(a as int, to as int)),
        decreases to - a,
    {
        proof {
            let t = v@.subrange(a as int, to as int);
            lemma_trim_start_step(t, 0);
            assert(t.subrange(0, t.len() as int) =~= t);
            assert(t.subrange(1, t.len() as int) =~= v@.subrange(a + 1, to as int));
        }
        a = a + 1;
    }
    proof {
        let t = v@.subrange(a as int, to as int);
        assert(trim_start(t) == t);
    }
    let mut b = to;
    while b > a && white(v[b - 1])
        invariant
            from <= a <= b <= to <= v.len(),
            trim(s) == trim_end(v@.subrange(a as int, b as int)),
        decreases b - a,
    {
        proof {
            let t = v@.subrange(a as int, b as int);
            lemma_trim_end_step(t, t.len() as int);
            assert(t.subrange(0, t.len() as int) =~= t);
            assert(t.subrange(0, t.len() - 1) =~= v@.subrange(a as int, b - 1));
        }
        b = b - 1;
    }
    (a, b)
}

/// `s` trimmed, as a new string.
pub fn trimmed(s: &str) -> (r: String)
    ensures
        r@ == trim(s@),
{
    let v = chars_of(s);
    let (a, b) = trim_bounds(&v, 0, v.len());
    assert(v@.subrange(0, v@.len() as int) =~= v@);
    string_of(&v, a, b)
}

/// The pieces of `s` between occurrences of `sep` (`str::split` with a
/// character): one more piece than there are separators.
pub open spec fn split_on(s: Seq<char>, sep: char) -> Seq<Seq<char>>
    decreases s.len(),
{
    if s.len() == 0 {
        seq![Seq::empty()]
    } else {
        let p = split_on(s.drop_last(), sep);
        if s.last() == sep {
            p.push(Seq::empty())
        } else {
            p.update(p.len() - 1, p.last().push(s.last()))
        }
    }
}

/// `split_on` always yields at least one piece.
pub proof fn lemma_split_on_nonempty(s: Seq<char>, sep: char)
    ensures
        split_on(s, sep).len() >= 1,
    decreases s.len(),
{
    if s.len() > 0 {
        lemma_split_on_nonempty(s.drop_last(), sep);
    }
}

/// A piece of a character vector, as bounds into it.
pub struct Span {
    pub start: usize,
    pub end: usize,
}

/// The views of the spans of `v`.
pub open spec fn span_views(v: Seq<char>, spans: Seq<Span>) -> Seq<Seq<char>> {
    spans.map_values(|sp: Span| v.subrange(sp.start as int, sp.end as int))
}

/// Splits `v[from..to]` at each occurrence of `sep`, as spans into `v`.
pub fn split_spans(v: &Vec<char>, from: usize, to: usize, sep: char) -> (r: Vec<Span>)
    requires
        from <= to <= v.len(),
    ensures
        forall|i: int| 0 <= i < r.len() ==> from <= #[trigger] r@[i].start <= r@[i].end <= to,
        span_views(v@, r@) == split_on(v@.subrange(from as int, to as int), sep),
{
    let mut spans: Vec<Span> = Vec::new();
    let mut cur = from;
    let mut i = from;
    proof {
        assert(v@.subrange(from as int, from as int) =~= Seq::<char>::empty());
        assert(span_views(v@, spans@) =~= Seq::<Seq<char>>::empty());
        assert(span_views(v@, spans@).push(Seq::<char>::empty()) =~= seq![Seq::<char>::empty()]);
    }
    while i < to
        invariant
            from <= cur <= i <= to <= v.len(),
            forall|k: int| 0 <= k < spans.len() ==> from <= #[trigger] spans@[k].start <= spans@[k].end <= to,
            span_views(v@, spans@).push(v@.subrange(cur as int, i as int)) == split_on(
                v@.subrange(from as int, i as int),
                sep,
            ),
        decreases to - i,
    {
        let ghost before = span_views(v@, spans@).push(v@.subrange(cur as int, i as int));
        proof {
            let t = v@.subrange(from as int, i + 1);
            assert(t.drop_last() =~= v@.subrange(from as int, i as int));
            assert(t.last() == v@[i as int]);
        }
        if v[i] == sep {
            spans.push(Span { start: cur, end: i });
            cur = i + 1;
            proof {
                assert(span_views(v@, spans@) =~= before);
                assert(v@.subrange(cur as int, i + 1) =~= Seq::<char>::empty());
            }
        } else {
            proof {
                assert(v@.subrange(cur as int, i + 1) =~= v@.subrange(cur as int, i as int).push(
                    v@[i as int],
                ));
                assert(span_views(v@, spans@).push(v@.subrange(cur as int, i + 1)) =~= before.update(
                    before.len() - 1,
                    before.last().push(v@[i as int]),
                ));
            }
        }
        i = i + 1;
    }
    let ghost before = span_views(v@, spans@).push(v@.subrange(cur as int, to as int));
    spans.push(Span { start: cur, end: to });
    assert(span_views(v@, spans@) =~= before);
    spans
}

/// `p` occurs in `s` at position `i`.
pub open spec fn occurs_at(s: Seq<char>, p: Seq<char>, i: int) -> bool {
    0 <= i && i + p.len() <= s.len() && s.subrange(i, i + p.len()) == p
}

/// The first position at or after `i` where `p` occurs in `s`.
pub open spec fn find_from(s: Seq<char>, p: Seq<char>, i: int) -> Option<int>
    decreases s.len() + 1 - i,
{
    if i < 0 || i + p.len() > s.len() {
        None
    } else if occurs_at(s, p, i) {
        Some(i)
    } else {
        find_from(s, p, i + 1)
    }
}

/// `p` occurs in `s` (`str::contains`).
pub open spec fn contains_seq(s: Seq<char>, p: Seq<char>) -> bool {
    find_from(s, p, 0) is Some
}

/// Position of the first occurrence of `p` in `v[from..to]`, relative to `from`.
pub fn find_in(v: &Vec<char>, from: usize, to: usize, p: &Vec<char>) -> (r: Option<usize>)
    requires
        from <= to <= v.len(),
    ensures
        r matches Some(k) ==> find_from(v@.subrange(from as int, to as int), p@, 0) == Some(
            k as int,
        ),
        r is None ==> find_from(v@.subrange(from as int, to as int), p@, 0) is None,
{
    let ghost s = v@.subrange(from as int, to as int);
    let n = to - from;
    let m = p.len();
    let mut i: usize = 0;
    while m <= n && i <= n - m
        invariant
            from <= to <= v.len(),
            n == to - from,
            m == p@.len(),
            s == v@.subrange(from as int, to as int),
            find_from(s, p@, 0) == find_from(s, p@, i as int),
        decreases n - i,
    {
        let mut j: usize = 0;
        let mut ok = true;
        while j < m
            invariant
                i + m <= n,
                n == to - from,
                to <= v.len(),
                m == p@.len(),
                j <= m,
                s == v@.subrange(from as int, to as int),
                ok == (forall|k: int| 0 <= k < j ==> s[i + k] == p@[k]),
            decreases m - j,
        {
            if v[from + i + j] != p[j] {
                ok = false;
            }
            j = j + 1;
        }
        proof {
            if ok {
                assert(s.subrange(i as int, i + m) =~= p@);
            } else {
                let k = choose|k: int| 0 <= k < m && s[i + k] != p@[k];
                assert(s.subrange(i as int, i + m)[k] != p@[k]);
            }
        }
        if ok {
            return Some(i);
        }
        i = i + 1;
    }
    None
}

/// `s` up to its first whitespace character.
pub open spec fn up_to_white(s: Seq<char>) -> Seq<char>
    decreases s.len(),
{
    if s.len() == 0 || is_white(s[0]) {
        Seq::empty()
    } else {
        seq![s[0]] + up_to_white(s.drop_first())
    }
}

/// The first whitespace-separated word of `s`, or the empty sequence when
/// there is none (`s.split_whitespace().next().unwrap_or("")`).
pub open spec fn first_word(s: Seq<char>) -> Seq<char> {
    up_to_white(trim_start(s))
}

/// Bounds of the first word of `v[from..to]`.
pub fn first_word_bounds(v: &Vec<char>, from: usize, to: usize) -> (r: (usize, usize))
    requires
        from <= to <= v.len(),
    ensures
        from <= r.0 <= r.1 <= to,
        v@.subrange(r.0 as int, r.1 as int) == first_word(v@.subrange(from as int, to as int)),
{
    let ghost s = v@.subrange(from as int, to as int);
    let mut a = from;
    while a < to && white(v[a])
        invariant
            from <= a <= to <= v.len(),
            s == v@.subrange(from as int, to as int),
            trim_start(s) == trim_start(v@.subrange(a as int, to as int)),
        decreases to - a,
    {
        proof {
            let t = v@.subrange(a as int, to as int);
            lemma_trim_start_step(t, 0);
            assert(t.subrange(0, t.len() as int) =~= t);
            assert(t.subrange(1, t.len() as int) =~= v@.subrange(a + 1, to as int));
        }
        a = a + 1;
    }
    proof {
        let t = v@.subrange(a as int, to as int);
        assert(trim_start(t) == t);
    }
    let mut b = a;
    while b < to && !white(v[b])
        invariant
            from <= a <= b <= to <= v.len(),
            s == v@.subrange(from as int, to as int),
            trim_start(s) == v@.subrange(a as int, to as int),
            up_to_white(v@.subrange(a as int, to as int)) == v@.subrange(a as int, b as int)
                + up_to_white(v@.subrange(b as int, to as int)),
        decreases to - b,
    {
        proof {
            let t = v@.subrange(b as int, to as int);
            assert(t.drop_first() =~= v@.subrange(b + 1, to as int));
            assert(v@.subrange(a as int, b + 1) =~= v@.subrange(a as int, b as int) + seq![t[0]]);
        }
        b = b + 1;
    }
    proof {
        let t = v@.subrange(b as int, to as int);
        assert(up_to_white(t) =~= Seq::<char>::empty());
        assert(v@.subrange(a as int, b as int) + Seq::<char>::empty() =~= v@.subrange(
            a as int,
            b as int,
        ));
    }
    (a, b)
}

/// The texts of a list of strings.
pub open spec fn strings_view(v: Seq<String>) -> Seq<Seq<char>> {
    v.map_values(|s: String| s@)
}

/// A copy of a list of strings.
pub fn copy_strings(v: &Vec<String>) -> (r: Vec<String>)
    ensures
        strings_view(r@) == strings_view(v@),
{
    let mut r: Vec<String> = Vec::new();
    let mut i: usize = 0;
    while i < v.len()
        invariant
            i <= v.len(),
            r.len() == i,
            forall|j: int| 0 <= j < i ==> (#[trigger] r@[j])@ == v@[j]@,
        decreases v.len() - i,
    {
        r.push(v[i].clone());
        i = i + 1;
    }
    assert(strings_view(r@) =~= strings_view(v@));
    r
}

} // verus!
