//! Reconstruction: fold a stream of bits back into an unsigned integer,
//! least-significant bit first, consuming at most a caller-given number of
//! bits.
use vstd::prelude::*;

verus! {

use crate::bits::from_bits;
use crate::bits::lemma_from_bits_lt_pow2;
use crate::bits::lemma_from_bits_saturates;
use crate::bits::lemma_from_bits_step;
use crate::word::BitWord;
use crate::stream::BitSource;

/// Rebuild a value of width `T` from the next bits of `iter`.
///
/// At most `max` bits are read, fewer when the source ends first; every
/// bit position that was not read stays zero in the result. The source is
/// advanced exactly past the bits that were read, so a later call picks up
/// the remainder of the stream. `max` must not exceed the width of `T`.
pub fn build_from<T: BitWord, I: BitSource>(iter: &mut I, max: usize) -> (r: T)
    requires
        max as nat <= T::width(),
    ensures
        r.as_nat() == from_bits(old(iter).bits(), max as nat),
        max <= old(iter).bits().len() ==> final(iter).bits() == old(iter).bits().skip(max as int),
        max > old(iter).bits().len() ==> final(iter).bits() == Seq::<bool>::empty(),
{
    let ghost s0 = iter.bits();
    let mut val: T = T::zero();
    let mut i: usize = 0;
    while i < max
        invariant
            i <= max,
            max as nat <= T::width(),
            i <= s0.len(),
            iter.bits() == s0.skip(i as int),
            val.as_nat() == from_bits(s0, i as nat),
        ensures
            i <= max,
            i <= s0.len(),
            iter.bits() == s0.skip(i as int),
            val.as_nat() == from_bits(s0, i as nat),
            i == max || iter.bits().len() == 0,
        decreases max - i,
    {
        let ghost before = iter.bits();
        match iter.next() {
            Some(b) => {
                proof {
                    assert(before[0] == s0[i as int]);
                    assert(iter.bits() =~= s0.skip(i + 1));
                    lemma_from_bits_step(s0, i as nat);
                }
                if b {
                    proof {
                        lemma_from_bits_lt_pow2(s0, i as nat);
                    }
                    val = val.set_bit(i);
                }
                i = i + 1;
            },
            None => {
                break;
            },
        }
    }
    proof {
        if i < max {
            assert(s0.skip(i as int).len() == 0);
            assert(i == s0.len());
            lemma_from_bits_saturates(s0, max as nat);
            assert(iter.bits() =~= Seq::<bool>::empty());
        }
    }
    val
}

} // verus!
