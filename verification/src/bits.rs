//! The mathematical model of the codec: what sequence of bits a number
//! denotes, and what number a sequence of bits denotes.
use vstd::prelude::*;

verus! {

use vstd::arithmetic::power2::pow2;
use vstd::arithmetic::power2::lemma_pow2_unfold;
use vstd::arithmetic::power2::lemma_pow2_pos;
use vstd::arithmetic::power2::lemma_pow2_strictly_increases;
use vstd::arithmetic::power2::lemma2_to64;

/// The significant bits of `v`, least-significant first.
///
/// The sequence stops at the highest set bit, so it never holds leading
/// zeros; the one exception is `v == 0`, which denotes the single-element
/// sequence `[false]`.
pub open spec fn bits_of(v: nat) -> Seq<bool>
    decreases v,
{
    if v < 2 {
        seq![v == 1]
    } else {
        seq![v % 2 == 1] + bits_of(v / 2)
    }
}

/// The number denoted by the first `max` elements of `s`, least-significant
/// first. Positions past the end of `s` count as zero.
pub open spec fn from_bits(s: Seq<bool>, max: nat) -> nat
    decreases max,
{
    if max == 0 || s.len() == 0 {
        0
    } else {
        (if s[0] {
            1nat
        } else {
            0nat
        }) + 2 * from_bits(s.skip(1), (max - 1) as nat)
    }
}

/// A decomposition is never empty, and its length is the count of
/// significant bits: `v` lies below `pow2(len)` and, when nonzero, at or
/// above `pow2(len - 1)`.
pub proof fn lemma_bits_of_len(v: nat)
    ensures
        bits_of(v).len() >= 1,
        v < pow2(bits_of(v).len()),
        v >= 1 ==> pow2((bits_of(v).len() - 1) as nat) <= v,
    decreases v,
{
    lemma2_to64();
    if v < 2 {
        assert(bits_of(v).len() == 1);
    } else {
        lemma_bits_of_len(v / 2);
        let n = bits_of(v / 2).len();
        assert(bits_of(v).len() == n + 1);
        lemma_pow2_unfold(n + 1);
        lemma_pow2_unfold(n);
    }
}

/// A reconstruction bounded by `max` bits stays below `pow2(max)`: every
/// bit position at or above `max` is zero in the result.
pub proof fn lemma_from_bits_lt_pow2(s: Seq<bool>, max: nat)
    ensures
        from_bits(s, max) < pow2(max),
    decreases max,
{
    lemma2_to64();
    if max == 0 || s.len() == 0 {
        lemma_pow2_pos(max);
    } else {
        lemma_from_bits_lt_pow2(s.skip(1), (max - 1) as nat);
        lemma_pow2_unfold(max);
    }
}

/// A source that ends before `max` bits are consumed changes nothing past
/// its end: reconstruction reads only the bits that are there, and every
/// higher-order position of the result stays zero.
pub proof fn lemma_from_bits_saturates(s: Seq<bool>, max: nat)
    requires
        s.len() <= max,
    ensures
        from_bits(s, max) == from_bits(s, s.len()),
        from_bits(s, max) < pow2(s.len()),
    decreases s.len(),
{
    if s.len() > 0 {
        lemma_from_bits_saturates(s.skip(1), (max - 1) as nat);
    }
    lemma_from_bits_lt_pow2(s, s.len());
}

/// Taking one more bit of `s` adds that bit at its place value:
/// reconstruction can be computed position by position.
pub proof fn lemma_from_bits_step(s: Seq<bool>, i: nat)
    requires
        i < s.len(),
    ensures
        from_bits(s, i + 1) == from_bits(s, i) + (if s[i as int] {
            pow2(i)
        } else {
            0nat
        }),
    decreases i,
{
    lemma2_to64();
    if i == 0 {
        assert(from_bits(s, 1) == (if s[0] {
            1nat
        } else {
            0nat
        }) + 2 * from_bits(s.skip(1), 0));
    } else {
        lemma_from_bits_step(s.skip(1), (i - 1) as nat);
        assert(s.skip(1)[i - 1] == s[i as int]);
        lemma_pow2_unfold(i);
    }
}

/// Leading zeros above the highest set bit are never produced: the
/// decomposition fits in any width `w` wide enough to represent `v`
/// (for nonzero `v`; zero always takes one bit).
pub proof fn lemma_bits_of_fits(v: nat, w: nat)
    requires
        v < pow2(w),
        w >= 1,
    ensures
        bits_of(v).len() <= w,
{
    lemma_bits_of_len(v);
    let n = bits_of(v).len();
    if n > w {
        if v == 0 {
            assert(n == 1);
        } else {
            if w < n - 1 {
                lemma_pow2_strictly_increases(w, (n - 1) as nat);
            }
            assert(pow2((n - 1) as nat) <= v);
        }
    }
}

/// The round-trip law: for any `v` representable in `w` bits,
/// decomposing `v` and reconstructing with `max == w` yields `v` again.
/// The decomposition holds only the significant bits of `v`, fewer than
/// `w` for most values; the undrawn high bits default to zero, so nothing
/// is lost.
pub proof fn lemma_round_trip(v: nat, w: nat)
    requires
        v < pow2(w),
    ensures
        from_bits(bits_of(v), w) == v,
    decreases v,
{
    lemma2_to64();
    if v < 2 {
        if v == 1 {
            if w == 0 {
                assert(pow2(0) == 1);
            }
            assert(from_bits(seq![true], w) == 1 + 2 * from_bits(seq![true].skip(1), (w - 1) as nat));
            assert(seq![true].skip(1).len() == 0);
        } else {
            if w > 0 {
                assert(from_bits(seq![false], w) == 2 * from_bits(seq![false].skip(1), (w - 1) as nat));
                assert(seq![false].skip(1).len() == 0);
            }
        }
    } else {
        lemma_pow2_unfold(w);
        lemma_round_trip(v / 2, (w - 1) as nat);
        let s = bits_of(v);
        assert(s.skip(1) =~= bits_of(v / 2));
        assert(from_bits(s, w) == (if s[0] {
            1nat
        } else {
            0nat
        }) + 2 * from_bits(bits_of(v / 2), (w - 1) as nat));
    }
}

} // verus!
