//! First-occurrence scans over byte sequences: the position of the first
//! occurrence of a given byte, and of a given two-byte pair. The parser uses
//! them for line ends (`\n`) and for the separators `": "` and `"; "`.
use vstd::prelude::*;

verus! {

/// Position of the first occurrence of `a` in `s`, or `s.len()` if none.
pub open spec fn byte_pos(s: Seq<u8>, a: u8) -> int
    decreases s.len(),
{
    if s.len() == 0 {
        0
    } else if s[0] == a {
        0
    } else {
        1 + byte_pos(s.drop_first(), a)
    }
}

/// `byte_pos` is in range, nothing before it is `a`, and it lands on `a`
/// unless it is the end.
pub proof fn lemma_byte_pos(s: Seq<u8>, a: u8)
    ensures
        0 <= byte_pos(s, a) <= s.len(),
        forall|i: int| 0 <= i < byte_pos(s, a) ==> s[i] != a,
        byte_pos(s, a) < s.len() ==> s[byte_pos(s, a)] == a,
    decreases s.len(),
{
    if s.len() == 0 || s[0] == a {
    } else {
        lemma_byte_pos(s.drop_first(), a);
        assert forall|i: int| 0 <= i < byte_pos(s, a) implies s[i] != a by {
            if i > 0 {
                assert(s.drop_first()[i - 1] == s[i]);
            }
        }
        if byte_pos(s, a) < s.len() {
            assert(s.drop_first()[byte_pos(s, a) - 1] == s[byte_pos(s, a)]);
        }
    }
}

/// Any position with no `a` before it that lands on `a` or on the end is
/// exactly `byte_pos`.
pub proof fn lemma_byte_pos_is(s: Seq<u8>, a: u8, k: int)
    requires
        0 <= k <= s.len(),
        forall|i: int| 0 <= i < k ==> s[i] != a,
        k < s.len() ==> s[k] == a,
    ensures
        byte_pos(s, a) == k,
    decreases s.len(),
{
    if s.len() == 0 || s[0] == a {
        if k > 0 {
            assert(s[0] != a);
        }
    } else {
        assert(k >= 1);
        assert forall|i: int| 0 <= i < k - 1 implies s.drop_first()[i] != a by {
            assert(s.drop_first()[i] == s[i + 1]);
        }
        if k - 1 < s.drop_first().len() {
            assert(s.drop_first()[k - 1] == s[k]);
        }
        lemma_byte_pos_is(s.drop_first(), a, k - 1);
    }
}

/// There is an occurrence of the pair `a`, `b` at position `i` of `s`.
pub open spec fn pair_at(s: Seq<u8>, a: u8, b: u8, i: int) -> bool {
    &&& 0 <= i
    &&& i + 1 < s.len()
    &&& s[i] == a
    &&& s[i + 1] == b
}

/// Position of the first occurrence of the pair `a`, `b` in `s`, or `s.len()`
/// if none.
pub open spec fn pair_pos(s: Seq<u8>, a: u8, b: u8) -> int
    decreases s.len(),
{
    if s.len() < 2 {
        s.len() as int
    } else if s[0] == a && s[1] == b {
        0
    } else {
        1 + pair_pos(s.drop_first(), a, b)
    }
}

/// `pair_pos` is in range, no pair occurs before it, and it lands on a pair
/// unless it is the end.
pub proof fn lemma_pair_pos(s: Seq<u8>, a: u8, b: u8)
    ensures
        0 <= pair_pos(s, a, b) <= s.len(),
        forall|i: int| 0 <= i < pair_pos(s, a, b) ==> !pair_at(s, a, b, i),
        pair_pos(s, a, b) < s.len() ==> pair_at(s, a, b, pair_pos(s, a, b)),
    decreases s.len(),
{
    if s.len() < 2 || (s[0] == a && s[1] == b) {
    } else {
        lemma_pair_pos(s.drop_first(), a, b);
        let p = pair_pos(s, a, b);
        assert forall|i: int| 0 <= i < p implies !pair_at(s, a, b, i) by {
            if i > 0 {
                assert(s.drop_first()[i - 1] == s[i]);
                if i + 1 < s.len() {
                    assert(s.drop_first()[i] == s[i + 1]);
                }
                assert(!pair_at(s.drop_first(), a, b, i - 1));
            }
        }
        if p < s.len() {
            assert(s.drop_first()[p - 1] == s[p]);
            assert(s.drop_first()[p] == s[p + 1]);
        }
    }
}

/// Any position with no pair before it that lands on a pair or on the end is
/// exactly `pair_pos`.
pub proof fn lemma_pair_pos_is(s: Seq<u8>, a: u8, b: u8, k: int)
    requires
        0 <= k <= s.len(),
        forall|i: int| 0 <= i < k ==> !pair_at(s, a, b, i),
        k < s.len() ==> pair_at(s, a, b, k),
    ensures
        pair_pos(s, a, b) == k,
    decreases s.len(),
{
    if s.len() < 2 {
    } else if s[0] == a && s[1] == b {
        if k > 0 {
            assert(pair_at(s, a, b, 0));
        }
    } else {
        assert(k >= 1) by {
            if k == 0 {
                assert(pair_at(s, a, b, 0));
            }
        }
        assert forall|i: int| 0 <= i < k - 1 implies !pair_at(s.drop_first(), a, b, i) by {
            assert(s.drop_first()[i] == s[i + 1]);
            if i + 2 < s.len() {
                assert(s.drop_first()[i + 1] == s[i + 2]);
            }
            assert(!pair_at(s, a, b, i + 1));
        }
        if k - 1 < s.drop_first().len() {
            assert(s.drop_first()[k - 1] == s[k]);
            if k + 1 < s.len() {
                assert(s.drop_first()[k] == s[k + 1]);
            }
        }
        lemma_pair_pos_is(s.drop_first(), a, b, k - 1);
    }
}

/// Finds the first occurrence of `a` in `s` at or after `from`; returns its
/// absolute position, or `s.len()` if there is none.
pub fn find_byte(s: &Vec<u8>, from: usize, a: u8) -> (r: usize)
    requires
        from <= s.len(),
    ensures
        from <= r <= s.len(),
        r - from == byte_pos(s@.skip(from as int), a),
        r < s.len() ==> s@[r as int] == a,
        forall|i: int| from <= i < r ==> s@[i] != a,
{
    let ghost t = s@.skip(from as int);
    let mut m: usize = from;
    while m < s.len() && s[m] != a
        invariant
            from <= m <= s.len(),
            forall|i: int| from <= i < m ==> s@[i] != a,
        decreases s.len() - m,
    {
        m = m + 1;
    }
    proof {
        assert forall|i: int| 0 <= i < m - from implies t[i] != a by {
            assert(t[i] == s@[i + from]);
        }
        if m < s.len() {
            assert(t[m - from] == s@[m as int]);
        }
        lemma_byte_pos_is(t, a, m - from as int);
    }
    m
}

/// Finds the first occurrence of the pair `a`, `b` strictly inside
/// `s[from..to]`; returns the absolute position of its first byte, or `to` if
/// there is none.
pub fn find_pair(s: &Vec<u8>, from: usize, to: usize, a: u8, b: u8) -> (r: usize)
    requires
        from <= to <= s.len(),
    ensures
        from <= r <= to,
        r - from == pair_pos(s@.subrange(from as int, to as int), a, b),
{
    let ghost t = s@.subrange(from as int, to as int);
    let mut m: usize = from;
    while to - m > 1 && !(s[m] == a && s[m + 1] == b)
        invariant
            from <= m <= to <= s.len(),
            t == s@.subrange(from as int, to as int),
            forall|i: int| 0 <= i < m - from ==> !pair_at(t, a, b, i),
        decreases to - m,
    {
        proof {
            assert(t[m - from] == s@[m as int]);
            assert(t[m - from + 1] == s@[m as int + 1]);
        }
        m = m + 1;
    }
    if to - m > 1 {
        proof {
            assert(t[m - from] == s@[m as int]);
            assert(t[m - from + 1] == s@[m as int + 1]);
            lemma_pair_pos_is(t, a, b, m - from as int);
        }
        m
    } else {
        proof {
            assert forall|i: int| 0 <= i < to - from implies !pair_at(t, a, b, i) by {
                assert(i + 1 < t.len() ==> i < m - from);
            }
            lemma_pair_pos_is(t, a, b, to - from as int);
        }
        to
    }
}

} // verus!
