//! The capability interface an unsigned integer type must offer to take
//! part in the codec: a mathematical value, a bit-width, and the few
//! primitive operations the codec performs, each with its meaning stated
//! over the mathematical value.
use vstd::prelude::*;

verus! {

use vstd::arithmetic::power2::pow2;
use vstd::bits::lemma_u8_pow2_no_overflow;
use vstd::bits::lemma_u16_pow2_no_overflow;
use vstd::bits::lemma_u32_pow2_no_overflow;
use vstd::bits::lemma_u64_pow2_no_overflow;
use vstd::bits::lemma_u8_shl_is_mul;
use vstd::bits::lemma_u16_shl_is_mul;
use vstd::bits::lemma_u32_shl_is_mul;
use vstd::bits::lemma_u64_shl_is_mul;

/// A fixed-width unsigned integer, seen through its mathematical value.
///
/// `as_nat` is the value an instance represents and `width` the number of
/// bits of the representation. The executable operations are exactly those
/// the codec needs: the zero value, a test for zero, reading the
/// least-significant bit, a logical right shift by one, and setting a
/// single bit above all bits currently set.
pub trait BitWord: Sized {
    /// The value this word represents.
    spec fn as_nat(&self) -> nat;

    /// The number of bits of the representation.
    spec fn width() -> nat;

    /// The zero value of this width.
    fn zero() -> (r: Self)
        ensures
            r.as_nat() == 0,
    ;

    /// Whether this word is zero.
    fn is_zero(&self) -> (r: bool)
        ensures
            r == (self.as_nat() == 0),
    ;

    /// The least-significant bit.
    fn low_bit(&self) -> (r: bool)
        ensures
            r == (self.as_nat() % 2 == 1),
    ;

    /// Logical right shift by one bit position.
    fn shift_right_one(&self) -> (r: Self)
        ensures
            r.as_nat() == self.as_nat() / 2,
    ;

    /// Set bit `i`, which must lie within the width and above every bit
    /// currently set, so the value grows by exactly `pow2(i)`.
    fn set_bit(&self, i: usize) -> (r: Self)
        requires
            i < Self::width(),
            self.as_nat() < pow2(i as nat),
        ensures
            r.as_nat() == self.as_nat() + pow2(i as nat),
    ;
}

impl BitWord for u8 {
    open spec fn as_nat(&self) -> nat {
        *self as nat
    }

    open spec fn width() -> nat {
        8
    }

    fn zero() -> (r: Self) {
        0
    }

    fn is_zero(&self) -> (r: bool) {
        *self == 0
    }

    fn low_bit(&self) -> (r: bool) {
        proof {
            let x = *self;
            assert((x & 1 == 1) == (x % 2 == 1)) by (bit_vector);
        }
        *self & 1 == 1
    }

    fn shift_right_one(&self) -> (r: Self) {
        proof {
            let x = *self;
            assert(x >> 1u8 == x / 2) by (bit_vector);
        }
        *self >> 1u8
    }

    fn set_bit(&self, i: usize) -> (r: Self) {
        let s: u8 = i as u8;
        proof {
            lemma_u8_pow2_no_overflow(s as nat);
            lemma_u8_shl_is_mul(1u8, s);
            let x = *self;
            assert(x < (1u8 << s) ==> (x | (1u8 << s)) == x + (1u8 << s)) by (bit_vector)
                requires
                    s < 8,
            ;
        }
        *self | (1u8 << s)
    }
}

impl BitWord for u16 {
    open spec fn as_nat(&self) -> nat {
        *self as nat
    }

    open spec fn width() -> nat {
        16
    }

    fn zero() -> (r: Self) {
        0
    }

    fn is_zero(&self) -> (r: bool) {
        *self == 0
    }

    fn low_bit(&self) -> (r: bool) {
        proof {
            let x = *self;
            assert((x & 1 == 1) == (x % 2 == 1)) by (bit_vector);
        }
        *self & 1 == 1
    }

    fn shift_right_one(&self) -> (r: Self) {
        proof {
            let x = *self;
            assert(x >> 1u16 == x / 2) by (bit_vector);
        }
        *self >> 1u16
    }

    fn set_bit(&self, i: usize) -> (r: Self) {
        let s: u16 = i as u16;
        proof {
            lemma_u16_pow2_no_overflow(s as nat);
            lemma_u16_shl_is_mul(1u16, s);
            let x = *self;
            assert(x < (1u16 << s) ==> (x | (1u16 << s)) == x + (1u16 << s)) by (bit_vector)
                requires
                    s < 16,
            ;
        }
        *self | (1u16 << s)
    }
}

impl BitWord for u32 {
    open spec fn as_nat(&self) -> nat {
        *self as nat
    }

    open spec fn width() -> nat {
        32
    }

    fn zero() -> (r: Self) {
        0
    }

    fn is_zero(&self) -> (r: bool) {
        *self == 0
    }

    fn low_bit(&self) -> (r: bool) {
        proof {
            let x = *self;
            assert((x & 1 == 1) == (x % 2 == 1)) by (bit_vector);
        }
        *self & 1 == 1
    }

    fn shift_right_one(&self) -> (r: Self) {
        proof {
            let x = *self;
            assert(x >> 1u32 == x / 2) by (bit_vector);
        }
        *self >> 1u32
    }

    fn set_bit(&self, i: usize) -> (r: Self) {
        let s: u32 = i as u32;
        proof {
            lemma_u32_pow2_no_overflow(s as nat);
            lemma_u32_shl_is_mul(1u32, s);
            let x = *self;
            assert(x < (1u32 << s) ==> (x | (1u32 << s)) == x + (1u32 << s)) by (bit_vector)
                requires
                    s < 32,
            ;
        }
        *self | (1u32 << s)
    }
}

impl BitWord for u64 {
    open spec fn as_nat(&self) -> nat {
        *self as nat
    }

    open spec fn width() -> nat {
        64
    }

    fn zero() -> (r: Self) {
        0
    }

    fn is_zero(&self) -> (r: bool) {
        *self == 0
    }

    fn low_bit(&self) -> (r: bool) {
        proof {
            let x = *self;
            assert((x & 1 == 1) == (x % 2 == 1)) by (bit_vector);
        }
        *self & 1 == 1
    }

    fn shift_right_one(&self) -> (r: Self) {
        proof {
            let x = *self;
            assert(x >> 1u64 == x / 2) by (bit_vector);
        }
        *self >> 1u64
    }

    fn set_bit(&self, i: usize) -> (r: Self) {
        let s: u64 = i as u64;
        proof {
            lemma_u64_pow2_no_overflow(s as nat);
            lemma_u64_shl_is_mul(1u64, s);
            let x = *self;
            assert(x < (1u64 << s) ==> (x | (1u64 << s)) == x + (1u64 << s)) by (bit_vector)
                requires
                    s < 64,
            ;
        }
        *self | (1u64 << s)
    }
}

} // verus!
