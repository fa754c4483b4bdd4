//! Listing order: text in code-point order (the byte order of UTF-8, which
//! is how `String` compares), and instants in time order.
use vstd::prelude::*;
use crate::time::Timestamp;

verus! {

/// `a` comes before `b` in lexicographic code-point order.
pub open spec fn text_lt(a: Seq<char>, b: Seq<char>) -> bool
    decreases a.len(),
{
    if a.len() == 0 {
        b.len() > 0
    } else if b.len() == 0 {
        false
    } else if a[0] != b[0] {
        (a[0] as u32) < (b[0] as u32)
    } else {
        text_lt(a.drop_first(), b.drop_first())
    }
}

proof fn lemma_char_code_injective(x: char, y: char)
    requires
        (x as u32) == (y as u32),
    ensures
        x == y,
{
    vstd::utf8::char_u32_cast(x, x as u32);
    vstd::utf8::char_u32_cast(y, y as u32);
}

proof fn lemma_text_lt_irreflexive(a: Seq<char>)
    ensures
        !text_lt(a, a),
    decreases a.len(),
{
    if a.len() > 0 {
        lemma_text_lt_irreflexive(a.drop_first());
    }
}

proof fn lemma_text_lt_asymmetric(a: Seq<char>, b: Seq<char>)
    ensures
        text_lt(a, b) ==> !text_lt(b, a),
    decreases a.len(),
{
    if a.len() > 0 && b.len() > 0 && a[0] == b[0] {
        lemma_text_lt_asymmetric(a.drop_first(), b.drop_first());
    }
}

proof fn lemma_text_lt_total(a: Seq<char>, b: Seq<char>)
    ensures
        a != b ==> text_lt(a, b) || text_lt(b, a),
    decreases a.len(),
{
    if a.len() == 0 && b.len() == 0 {
        assert(a =~= b);
    } else if a.len() > 0 && b.len() > 0 {
        if a[0] == b[0] {
            lemma_text_lt_total(a.drop_first(), b.drop_first());
            if a != b {
                assert(a.drop_first() != b.drop_first()) by {
                    if a.drop_first() == b.drop_first() {
                        assert(a =~= seq![a[0]] + a.drop_first());
                        assert(b =~= seq![b[0]] + b.drop_first());
                    }
                }
            }
        } else if (a[0] as u32) == (b[0] as u32) {
            lemma_char_code_injective(a[0], b[0]);
        }
    }
}

proof fn lemma_text_lt_transitive(a: Seq<char>, b: Seq<char>, c: Seq<char>)
    ensures
        text_lt(a, b) && text_lt(b, c) ==> text_lt(a, c),
    decreases a.len(),
{
    if a.len() > 0 && b.len() > 0 && c.len() > 0 {
        if a[0] == b[0] && b[0] == c[0] {
            lemma_text_lt_transitive(a.drop_first(), b.drop_first(), c.drop_first());
        }
        if a[0] != c[0] && (a[0] as u32) == (c[0] as u32) {
            lemma_char_code_injective(a[0], c[0]);
        }
    }
}

/// Code-point order is a strict total order on texts.
pub proof fn lemma_text_order(a: Seq<char>, b: Seq<char>, c: Seq<char>)
    ensures
        !text_lt(a, a),
        text_lt(a, b) ==> !text_lt(b, a),
        a != b ==> text_lt(a, b) || text_lt(b, a),
        text_lt(a, b) && text_lt(b, c) ==> text_lt(a, c),
{
    lemma_text_lt_irreflexive(a);
    lemma_text_lt_asymmetric(a, b);
    lemma_text_lt_total(a, b);
    lemma_text_lt_transitive(a, b, c);
}

/// Two different single characters are ordered by their code points.
pub proof fn law_text_order_single_chars(x: char, y: char)
    requires
        x != y,
    ensures
        text_lt(seq![x], seq![y]) <==> (x as u32) < (y as u32),
{
    assert(seq![x][0] == x);
    assert(seq![y][0] == y);
}

/// Texts that agree before position `i` and differ there are ordered by the
/// code points at `i`, whatever follows.
pub proof fn law_text_order_first_difference(a: Seq<char>, b: Seq<char>, i: int)
    requires
        0 <= i < a.len(),
        i < b.len(),
        a.subrange(0, i) == b.subrange(0, i),
        a[i] != b[i],
    ensures
        text_lt(a, b) <==> (a[i] as u32) < (b[i] as u32),
    decreases i,
{
    if i > 0 {
        assert(a[0] == a.subrange(0, i)[0]);
        assert(b[0] == b.subrange(0, i)[0]);
        let a1 = a.drop_first();
        let b1 = b.drop_first();
        assert(a1.subrange(0, i - 1) =~= a.subrange(0, i).drop_first());
        assert(b1.subrange(0, i - 1) =~= b.subrange(0, i).drop_first());
        assert(a1[i - 1] == a[i]);
        assert(b1[i - 1] == b[i]);
        law_text_order_first_difference(a1, b1, i - 1);
    }
}

/// A text comes before every longer text that starts with it.
pub proof fn law_text_order_prefix_first(a: Seq<char>, b: Seq<char>)
    requires
        b.len() > 0,
    ensures
        text_lt(a, a + b),
        !text_lt(a + b, a),
    decreases a.len(),
{
    if a.len() > 0 {
        assert((a + b)[0] == a[0]);
        assert((a + b).drop_first() =~= a.drop_first() + b);
        law_text_order_prefix_first(a.drop_first(), b);
    }
}

/// Decides `text_lt`.
pub fn text_less(a: &Vec<char>, b: &Vec<char>) -> (r: bool)
    ensures
        r == text_lt(a@, b@),
{
    let mut i: usize = 0;
    assert(a@.skip(0) =~= a@);
    assert(b@.skip(0) =~= b@);
    while i < a.len() && i < b.len() && a[i] == b[i]
        invariant
            i <= a.len(),
            i <= b.len(),
            text_lt(a@, b@) == text_lt(a@.skip(i as int), b@.skip(i as int)),
        decreases a.len() - i,
    {
        proof {
            assert(a@.skip(i as int).drop_first() =~= a@.skip(i + 1));
            assert(b@.skip(i as int).drop_first() =~= b@.skip(i + 1));
        }
        i = i + 1;
    }
    if i == a.len() {
        i < b.len()
    } else if i == b.len() {
        false
    } else {
        (a[i] as u32) < (b[i] as u32)
    }
}

/// `p` holds the position `k`.
pub open spec fn lists(p: Seq<usize>, k: int) -> bool {
    exists|a: int| 0 <= a < p.len() && p[a] == k
}

/// `p` lists every position below `n` once.
pub open spec fn is_arrangement(p: Seq<usize>, n: nat) -> bool {
    &&& p.len() == n
    &&& forall|a: int| 0 <= a < p.len() ==> #[trigger] p[a] < n
    &&& forall|k: int| 0 <= k < n ==> #[trigger] lists(p, k)
}

proof fn lemma_arrangement_insert(p: Seq<usize>, n: nat, pos: int)
    requires
        is_arrangement(p, n),
        0 <= pos <= p.len(),
        n < usize::MAX,
    ensures
        is_arrangement(p.insert(pos, n as usize), n + 1),
{
    let q = p.insert(pos, n as usize);
    assert forall|k: int| 0 <= k < n + 1 implies #[trigger] lists(q, k) by {
        if k == n {
            assert(q[pos] == k);
        } else {
            assert(lists(p, k));
            let a = choose|a: int| 0 <= a < p.len() && p[a] == k;
            if a < pos {
                assert(q[a] == k);
            } else {
                assert(q[a + 1] == k);
            }
        }
    }
}

/// The positions of `keys` in code-point order of the keys, which are
/// distinct.
pub fn order_by_text(keys: &Vec<Vec<char>>) -> (p: Vec<usize>)
    requires
        forall|a: int, b: int| 0 <= a < b < keys.len() ==> keys@[a]@ != keys@[b]@,
    ensures
        is_arrangement(p@, keys.len() as nat),
        forall|a: int, b: int|
            0 <= a < b < p.len() ==> text_lt(keys@[p@[a] as int]@, keys@[p@[b] as int]@),
{
    let mut p: Vec<usize> = Vec::new();
    let mut i: usize = 0;
    while i < keys.len()
        invariant
            i <= keys.len(),
            forall|a: int, b: int| 0 <= a < b < keys.len() ==> keys@[a]@ != keys@[b]@,
            is_arrangement(p@, i as nat),
            forall|a: int, b: int|
                0 <= a < b < p.len() ==> text_lt(keys@[p@[a] as int]@, keys@[p@[b] as int]@),
        decreases keys.len() - i,
    {
        let mut pos: usize = 0;
        while pos < p.len() && !text_less(&keys[i], &keys[p[pos]])
            invariant
                pos <= p.len(),
                i < keys.len(),
                is_arrangement(p@, i as nat),
                forall|a: int| 0 <= a < pos ==> !text_lt(keys@[i as int]@, keys@[p@[a] as int]@),
            decreases p.len() - pos,
        {
            pos = pos + 1;
        }
        let ghost old_p = p@;
        proof {
            lemma_arrangement_insert(old_p, i as nat, pos as int);
        }
        p.insert(pos, i);
        proof {
            assert(p@ == old_p.insert(pos as int, i));
            assert forall|a: int, b: int| 0 <= a < b < p.len() implies text_lt(
                keys@[p@[a] as int]@,
                keys@[p@[b] as int]@,
            ) by {
                let ka = keys@[p@[a] as int]@;
                let kb = keys@[p@[b] as int]@;
                let ki = keys@[i as int]@;
                if b == pos {
                    assert(p@[a] == old_p[a]);
                    assert(old_p[a] < i);
                    lemma_text_order(ki, ka, ka);
                } else if a == pos {
                    assert(p@[b] == old_p[b - 1]);
                    if pos < old_p.len() {
                        let kp = keys@[old_p[pos as int] as int]@;
                        assert(text_lt(ki, kp));
                        if b - 1 > pos {
                            assert(text_lt(kp, kb));
                            lemma_text_order(ki, kp, kb);
                        }
                    }
                } else {
                    let oa = if a < pos { a } else { a - 1 };
                    let ob = if b < pos { b } else { b - 1 };
                    assert(p@[a] == old_p[oa]);
                    assert(p@[b] == old_p[ob]);
                }
            }
        }
        i = i + 1;
    }
    p
}

/// The positions of `times` in time order; equal instants keep no
/// particular order.
pub fn order_by_time(times: &Vec<Timestamp>) -> (p: Vec<usize>)
    ensures
        is_arrangement(p@, times.len() as nat),
        forall|a: int, b: int|
            0 <= a < b < p.len() ==> times@[p@[a] as int].not_after(times@[p@[b] as int]),
{
    let mut p: Vec<usize> = Vec::new();
    let mut i: usize = 0;
    while i < times.len()
        invariant
            i <= times.len(),
            is_arrangement(p@, i as nat),
            forall|a: int, b: int|
                0 <= a < b < p.len() ==> times@[p@[a] as int].not_after(times@[p@[b] as int]),
        decreases times.len() - i,
    {
        let mut pos: usize = 0;
        while pos < p.len() && times[p[pos]].is_not_after(&times[i])
            invariant
                pos <= p.len(),
                i < times.len(),
                is_arrangement(p@, i as nat),
                forall|a: int| 0 <= a < pos ==> times@[p@[a] as int].not_after(times@[i as int]),
            decreases p.len() - pos,
        {
            pos = pos + 1;
        }
        let ghost old_p = p@;
        proof {
            lemma_arrangement_insert(old_p, i as nat, pos as int);
        }
        p.insert(pos, i);
        proof {
            assert(p@ == old_p.insert(pos as int, i));
            assert forall|a: int, b: int| 0 <= a < b < p.len() implies times@[p@[a] as int].not_after(
                times@[p@[b] as int],
            ) by {
                if b == pos {
                    assert(p@[a] == old_p[a]);
                } else if a == pos {
                    assert(p@[b] == old_p[b - 1]);
                    if pos < old_p.len() {
                        if b - 1 > pos {
                            assert(times@[old_p[pos as int] as int].not_after(
                                times@[old_p[b - 1] as int],
                            ));
                        }
                    }
                } else {
                    let oa = if a < pos { a } else { a - 1 };
                    let ob = if b < pos { b } else { b - 1 };
                    assert(p@[a] == old_p[oa]);
                    assert(p@[b] == old_p[ob]);
                }
            }
        }
        i = i + 1;
    }
    p
}

} // verus!
