//! Decimal digit strings: the value a digit string denotes, parsing one into
//! a `usize` (with the lenient fallback to zero), and rendering a number as
//! its canonical digit string.
use vstd::prelude::*;

verus! {

/// The numeric value of one digit byte; non-digits count as zero.
pub open spec fn digit_of(b: u8) -> nat {
    if 48 <= b <= 57 {
        (b - 48) as nat
    } else {
        0
    }
}

/// All bytes of `s` are decimal digits.
pub open spec fn all_digits(s: Seq<u8>) -> bool {
    forall|i: int| 0 <= i < s.len() ==> 48 <= #[trigger] s[i] <= 57
}

/// The number a digit string denotes, most significant digit first.
pub open spec fn digits_value(s: Seq<u8>) -> nat
    decreases s.len(),
{
    if s.len() == 0 {
        0
    } else {
        digits_value(s.drop_last()) * 10 + digit_of(s.last())
    }
}

/// What parsing a byte string as an unsigned integer yields: its value when
/// it is a nonempty digit string whose value fits in `usize`, zero otherwise.
pub open spec fn parse_decimal_spec(s: Seq<u8>) -> nat {
    if s.len() > 0 && all_digits(s) && digits_value(s) <= usize::MAX {
        digits_value(s)
    } else {
        0
    }
}

/// A digit string's value only grows as more of it is taken.
pub proof fn lemma_digits_value_mono(s: Seq<u8>, i: int, j: int)
    requires
        0 <= i <= j <= s.len(),
    ensures
        digits_value(s.take(i)) <= digits_value(s.take(j)),
    decreases j - i,
{
    if i < j {
        lemma_digits_value_mono(s, i, j - 1);
        assert(s.take(j).drop_last() =~= s.take(j - 1));
        assert(digits_value(s.take(j)) == digits_value(s.take(j - 1)) * 10 + digit_of(
            s.take(j).last(),
        ));
    }
}

/// Parses `s[lo..hi]` as an unsigned decimal integer; a string that is empty,
/// has a non-digit, or overflows `usize` parses to zero.
pub fn parse_decimal(s: &Vec<u8>, lo: usize, hi: usize) -> (n: usize)
    requires
        lo <= hi <= s.len(),
    ensures
        n as nat == parse_decimal_spec(s@.subrange(lo as int, hi as int)),
{
    let ghost t = s@.subrange(lo as int, hi as int);
    if lo == hi {
        return 0;
    }
    let mut acc: usize = 0;
    let mut i: usize = lo;
    while i < hi
        invariant
            lo <= i <= hi <= s.len(),
            t == s@.subrange(lo as int, hi as int),
            acc as nat == digits_value(t.take(i - lo)),
            forall|m: int| 0 <= m < i - lo ==> 48 <= #[trigger] t[m] <= 57,
        decreases hi - i,
    {
        let b = s[i];
        proof {
            assert(t[i - lo] == s@[i as int]);
        }
        if !(48 <= b && b <= 57) {
            proof {
                assert(!all_digits(t));
            }
            return 0;
        }
        let d = b - 48;
        proof {
            assert(t.take(i + 1 - lo).drop_last() =~= t.take(i - lo));
            assert(t.take(i + 1 - lo).last() == t[i - lo]);
        }
        if acc > usize::MAX / 10 || (acc == usize::MAX / 10 && d > (usize::MAX % 10) as u8) {
            proof {
                assert(digits_value(t.take(i + 1 - lo)) == acc * 10 + d);
                assert(usize::MAX == (usize::MAX / 10) * 10 + usize::MAX % 10);
                assert(digits_value(t.take(i + 1 - lo)) > usize::MAX);
                lemma_digits_value_mono(t, i + 1 - lo, t.len() as int);
                assert(t.take(t.len() as int) =~= t);
                assert(digits_value(t) > usize::MAX);
            }
            return 0;
        }
        acc = acc * 10 + (d as usize);
        i = i + 1;
    }
    proof {
        assert(t.take(t.len() as int) =~= t);
        assert(all_digits(t));
    }
    acc
}

/// The canonical decimal rendering of `n`, most significant digit first.
pub open spec fn dec_digits(n: nat) -> Seq<u8>
    decreases n,
{
    if n < 10 {
        seq![(48 + n) as u8]
    } else {
        dec_digits(n / 10) + seq![(48 + n % 10) as u8]
    }
}

/// The canonical rendering is made of digits and denotes the number itself.
pub proof fn lemma_dec_digits_value(n: nat)
    ensures
        dec_digits(n).len() >= 1,
        all_digits(dec_digits(n)),
        digits_value(dec_digits(n)) == n,
    decreases n,
{
    if n < 10 {
        assert(dec_digits(n) == seq![(48 + n) as u8]);
        assert(dec_digits(n).drop_last() =~= Seq::<u8>::empty());
        assert(dec_digits(n)[0] == (48 + n) as u8);
        assert(digits_value(Seq::<u8>::empty()) == 0);
        assert(digits_value(dec_digits(n)) == digit_of((48 + n) as u8));
    } else {
        lemma_dec_digits_value(n / 10);
        assert(dec_digits(n).drop_last() =~= dec_digits(n / 10));
        assert(dec_digits(n).last() == (48 + n % 10) as u8);
        assert(digit_of((48 + n % 10) as u8) == n % 10);
        assert(digits_value(dec_digits(n)) == (n / 10) * 10 + n % 10);
        assert forall|i: int| 0 <= i < dec_digits(n).len() implies 48 <= #[trigger] dec_digits(n)[i]
            <= 57 by {
            if i < dec_digits(n).len() - 1 {
                assert(dec_digits(n)[i] == dec_digits(n / 10)[i]);
            } else {
                assert(dec_digits(n)[i] == (48 + n % 10) as u8);
            }
        }
    }
}

/// Renders `n` as its decimal digit string.
pub fn decimal_bytes(n: usize) -> (r: Vec<u8>)
    ensures
        r@ == dec_digits(n as nat),
    decreases n,
{
    if n < 10 {
        let mut r: Vec<u8> = Vec::new();
        r.push(48 + (n as u8));
        proof {
            assert(r@ =~= dec_digits(n as nat));
        }
        r
    } else {
        let mut r = decimal_bytes(n / 10);
        r.push(48 + ((n % 10) as u8));
        proof {
            assert(r@ =~= dec_digits(n as nat));
        }
        r
    }
}

} // verus!
