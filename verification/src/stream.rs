//! The lazy bit stream: a source of booleans with an explicit end, and the
//! decomposer that streams out the significant bits of an unsigned
//! integer, least-significant first.
use vstd::prelude::*;

verus! {

use crate::bits::bits_of;
use crate::word::BitWord;

/// A finite stream of bits. `bits` is the sequence of bits the stream will
/// still produce; `next` hands out the front of that sequence, or `None`
/// once it is empty, after which it stays empty.
pub trait BitSource {
    /// The bits this source will still produce, in order.
    spec fn bits(&self) -> Seq<bool>;

    /// Produce the next bit, or `None` when the stream has ended.
    fn next(&mut self) -> (r: Option<bool>)
        ensures
            old(self).bits().len() == 0 ==> r is None && final(self).bits() == old(self).bits(),
            old(self).bits().len() > 0 ==> r == Some(old(self).bits()[0]) && final(self).bits()
                == old(self).bits().skip(1),
    ;
}

/// A single-pass stream over the bits of one unsigned integer,
/// least-significant bit first.
///
/// The stream ends as soon as the remaining value reaches zero after a
/// shift, so it emits exactly the significant bits of the initial value
/// and never the leading zeros above the highest set bit. A stream built
/// over zero emits exactly one `false` bit: the zero check follows the
/// shift, so the first extraction always goes through.
pub struct BiteratorLsb<T> {
    val: T,
    at_end: bool,
}

impl<T: BitWord> BiteratorLsb<T> {
    /// A stream positioned at the least-significant bit of `init`.
    pub fn new(init: T) -> (r: BiteratorLsb<T>)
        ensures
            r.bits() == bits_of(init.as_nat()),
    {
        BiteratorLsb { val: init, at_end: false }
    }
}

impl<T: BitWord> BitSource for BiteratorLsb<T> {
    closed spec fn bits(&self) -> Seq<bool> {
        if self.at_end {
            Seq::empty()
        } else {
            bits_of(self.val.as_nat())
        }
    }

    fn next(&mut self) -> (r: Option<bool>) {
        if self.at_end {
            return None;
        }
        let ghost v = self.val.as_nat();
        let lsb = self.val.low_bit();
        self.val = self.val.shift_right_one();
        if self.val.is_zero() {
            self.at_end = true;
        }
        proof {
            assert(bits_of(v)[0] == (v % 2 == 1));
            assert(self.bits() =~= bits_of(v).skip(1));
        }
        Some(lsb)
    }
}

} // verus!
