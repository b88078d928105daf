//! Whitespace tokenization of the raw request text.
//!
//! The parser treats the whole accumulated request as a flat sequence of
//! whitespace-separated tokens. `tokens_of` is the mathematical splitting of a
//! byte sequence on runs of ASCII whitespace; `tokenize` computes it.
use vstd::prelude::*;
use vstd::slice::{slice_subrange, slice_to_vec};

verus! {

/// ASCII whitespace: the bytes whose characters `char::is_whitespace` accepts.
pub open spec fn is_space(b: u8) -> bool {
    b == 32 || b == 9 || b == 10 || b == 11 || b == 12 || b == 13
}

/// Executable test for `is_space`.
pub fn space_byte(b: u8) -> (r: bool)
    ensures
        r == is_space(b),
{
    b == 32 || b == 9 || b == 10 || b == 11 || b == 12 || b == 13
}

/// Length of the maximal leading run of non-whitespace bytes.
pub open spec fn token_end(s: Seq<u8>) -> int
    decreases s.len(),
{
    if s.len() == 0 || is_space(s[0]) {
        0
    } else {
        1 + token_end(s.drop_first())
    }
}

/// `token_end` is a position within the sequence, everything before it is
/// non-whitespace, and it stops at whitespace or at the end.
pub proof fn lemma_token_end(s: Seq<u8>)
    ensures
        0 <= token_end(s) <= s.len(),
        forall|i: int| 0 <= i < token_end(s) ==> !is_space(s[i]),
        token_end(s) < s.len() ==> is_space(s[token_end(s)]),
    decreases s.len(),
{
    if s.len() == 0 || is_space(s[0]) {
    } else {
        lemma_token_end(s.drop_first());
        assert forall|i: int| 0 <= i < token_end(s) implies !is_space(s[i]) by {
            if i > 0 {
                assert(s.drop_first()[i - 1] == s[i]);
            }
        }
        if token_end(s) < s.len() {
            assert(s.drop_first()[token_end(s) - 1] == s[token_end(s)]);
        }
    }
}

/// Any position with only non-whitespace before it and whitespace (or the end)
/// at it is exactly `token_end`.
pub proof fn lemma_token_end_is(s: Seq<u8>, k: int)
    requires
        0 <= k <= s.len(),
        forall|i: int| 0 <= i < k ==> !is_space(s[i]),
        k < s.len() ==> is_space(s[k]),
    ensures
        token_end(s) == k,
    decreases s.len(),
{
    if s.len() == 0 || is_space(s[0]) {
        if k > 0 {
            assert(!is_space(s[0]));
        }
    } else {
        assert(k >= 1);
        assert forall|i: int| 0 <= i < k - 1 implies !is_space(s.drop_first()[i]) by {
            assert(s.drop_first()[i] == s[i + 1]);
        }
        if k - 1 < s.drop_first().len() {
            assert(s.drop_first()[k - 1] == s[k]);
        }
        lemma_token_end_is(s.drop_first(), k - 1);
    }
}

/// The whitespace-separated tokens of a byte sequence, in order.
pub open spec fn tokens_of(s: Seq<u8>) -> Seq<Seq<u8>>
    decreases s.len(),
    via tokens_of_dec
{
    if s.len() == 0 {
        Seq::<Seq<u8>>::empty()
    } else if is_space(s[0]) {
        tokens_of(s.drop_first())
    } else {
        seq![s.take(token_end(s))] + tokens_of(s.skip(token_end(s)))
    }
}

#[via_fn]
proof fn tokens_of_dec(s: Seq<u8>) {
    lemma_token_end(s);
    if s.len() > 0 && !is_space(s[0]) {
        lemma_token_end(s.drop_first());
    }
}

/// Skipping one whitespace byte does not change the remaining tokens.
pub proof fn lemma_tokens_skip_space(s: Seq<u8>, i: int)
    requires
        0 <= i < s.len(),
        is_space(s[i]),
    ensures
        tokens_of(s.skip(i)) == tokens_of(s.skip(i + 1)),
{
    assert(s.skip(i)[0] == s[i]);
    assert(s.skip(i).drop_first() =~= s.skip(i + 1));
}

/// At the start of a token running from `i` to `j`, the remaining tokens are
/// that token followed by the tokens after it.
pub proof fn lemma_tokens_take_token(s: Seq<u8>, i: int, j: int)
    requires
        0 <= i < j <= s.len(),
        forall|m: int| i <= m < j ==> !is_space(s[m]),
        j < s.len() ==> is_space(s[j]),
    ensures
        tokens_of(s.skip(i)) == seq![s.subrange(i, j)] + tokens_of(s.skip(j)),
{
    let t = s.skip(i);
    assert forall|m: int| 0 <= m < j - i implies !is_space(t[m]) by {
        assert(t[m] == s[m + i]);
    }
    if j - i < t.len() {
        assert(t[j - i] == s[j]);
    }
    lemma_token_end_is(t, j - i);
    assert(!is_space(t[0]));
    assert(t.take(j - i) =~= s.subrange(i, j));
    assert(t.skip(j - i) =~= s.skip(j));
}

/// Splits a byte vector into its whitespace-separated tokens.
pub fn tokenize(s: &Vec<u8>) -> (r: Vec<Vec<u8>>)
    ensures
        r.deep_view() == tokens_of(s@),
{
    let mut r: Vec<Vec<u8>> = Vec::new();
    let mut i: usize = 0;
    proof {
        assert(r.deep_view() =~= Seq::<Seq<u8>>::empty());
        assert(s@.skip(0) =~= s@);
    }
    while i < s.len()
        invariant
            i <= s.len(),
            tokens_of(s@) == r.deep_view() + tokens_of(s@.skip(i as int)),
        decreases s.len() - i,
    {
        if space_byte(s[i]) {
            proof {
                lemma_tokens_skip_space(s@, i as int);
            }
            i = i + 1;
        } else {
            let mut j: usize = i + 1;
            while j < s.len() && !space_byte(s[j])
                invariant
                    i < j <= s.len(),
                    forall|m: int| i <= m < j ==> !is_space(s@[m]),
                decreases s.len() - j,
            {
                j = j + 1;
            }
            let tok = slice_to_vec(slice_subrange(s.as_slice(), i, j));
            let ghost r0 = r.deep_view();
            let ghost tv = tok@;
            proof {
                lemma_tokens_take_token(s@, i as int, j as int);
                assert(tok.deep_view() =~= tv);
            }
            r.push(tok);
            proof {
                assert(tv =~= s@.subrange(i as int, j as int));
                assert(r.deep_view() =~~= r0 + seq![tv]);
                assert(r0 + seq![tv] + tokens_of(s@.skip(j as int)) =~= r0 + (seq![tv]
                    + tokens_of(s@.skip(j as int))));
            }
            i = j;
        }
    }
    proof {
        assert(s@.skip(s@.len() as int) =~= Seq::<u8>::empty());
        assert(r.deep_view() + Seq::<Seq<u8>>::empty() =~= r.deep_view());
    }
    r
}

} // verus!
