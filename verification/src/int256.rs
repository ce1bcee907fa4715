//! A 256-bit two's-complement signed integer, held as a low unsigned 128-bit
//! half and a high signed 128-bit half, and its canonical four-limb form.

use vstd::prelude::*;
use vstd::arithmetic::div_mod::lemma_fundamental_div_mod;
use crate::limbs::limbs_as_nat;

verus! {

/// The smallest 256-bit two's-complement integer, `-2^255`.
pub open spec fn int256_min() -> int {
    -0x8000000000000000000000000000000000000000000000000000000000000000int
}

/// The largest 256-bit two's-complement integer, `2^255 - 1`.
pub open spec fn int256_max() -> int {
    0x7fffffffffffffffffffffffffffffffffffffffffffffffffffffffffffffffint
}

/// A 256-bit two's-complement signed integer.
#[derive(Clone, Copy, Debug, PartialEq, Eq, Structural)]
pub struct Int256 {
    pub low: u128,
    pub high: i128,
}

impl View for Int256 {
    type V = int;

    /// The integer the two halves encode.
    open spec fn view(&self) -> int {
        self.low + self.high * 0x100000000000000000000000000000000int
    }
}

impl Int256 {
    /// Builds the integer `low + high * 2^128` from its two halves.
    pub fn from_parts(low: u128, high: i128) -> (r: Int256)
        ensures
            r.low == low && r.high == high,
            r@ == low + high * 0x100000000000000000000000000000000int,
    {
        Int256 { low, high }
    }

    /// Splits the integer back into its two halves.
    pub fn to_parts(&self) -> (r: (u128, i128))
        ensures
            r.0 == self.low && r.1 == self.high,
            self@ == r.0 + r.1 * 0x100000000000000000000000000000000int,
    {
        (self.low, self.high)
    }

    /// The largest representable value, `2^255 - 1`.
    pub fn max() -> (r: Int256)
        ensures
            r@ == int256_max(),
    {
        Int256 { low: u128::MAX, high: i128::MAX }
    }

    /// The smallest representable value, `-2^255`.
    pub fn min() -> (r: Int256)
        ensures
            r@ == int256_min(),
    {
        Int256 { low: 0, high: i128::MIN }
    }

    /// Embeds a 128-bit signed integer.
    pub fn from_i128(x: i128) -> (r: Int256)
        ensures
            r@ == x,
    {
        if x >= 0 {
            Int256 { low: x as u128, high: 0 }
        } else {
            Int256 { low: u128::MAX - ((-(x + 1)) as u128), high: -1 }
        }
    }

    /// The sign of the encoded integer.
    pub fn is_negative(&self) -> (r: bool)
        ensures
            r == (self@ < 0),
    {
        self.high < 0
    }

    /// Strict order on encoded integers.
    pub fn lt(&self, other: &Int256) -> (r: bool)
        ensures
            r == (self@ < other@),
    {
        if self.high != other.high {
            self.high < other.high
        } else {
            self.low < other.low
        }
    }

    /// Two's-complement negation; only `-2^255`, whose negation is not
    /// representable, wraps around to itself.
    pub fn wrapping_neg(&self) -> (r: Int256)
        ensures
            r@ == if self@ == int256_min() { int256_min() } else { -self@ },
    {
        if self.low == 0 {
            if self.high == i128::MIN {
                *self
            } else {
                Int256 { low: 0, high: -self.high }
            }
        } else {
            Int256 { low: (u128::MAX - self.low) + 1, high: -1 - self.high }
        }
    }

    /// Exact addition within the representable range.
    pub fn add(&self, rhs: &Int256) -> (r: Int256)
        requires
            int256_min() <= self@ + rhs@ <= int256_max(),
        ensures
            r@ == self@ + rhs@,
    {
        let (low, carry) = add_with_carry(self.low, rhs.low);
        proof {
            let h = self.high + rhs.high + (if carry { 1int } else { 0int });
            assert(self@ + rhs@ == low + h * 0x100000000000000000000000000000000int);
            assert(-0x80000000000000000000000000000000int <= h
                <= 0x7fffffffffffffffffffffffffffffffint);
        }
        let high: i128 = if carry {
            if rhs.high == i128::MAX {
                (self.high + 1) + rhs.high
            } else {
                self.high + (rhs.high + 1)
            }
        } else {
            self.high + rhs.high
        };
        Int256 { low, high }
    }

    /// Exact subtraction within the representable range.
    pub fn sub(&self, rhs: &Int256) -> (r: Int256)
        requires
            int256_min() <= self@ - rhs@ <= int256_max(),
        ensures
            r@ == self@ - rhs@,
    {
        let (low, borrow) = sub_with_borrow(self.low, rhs.low);
        proof {
            let h = self.high - rhs.high - (if borrow { 1int } else { 0int });
            assert(self@ - rhs@ == low + h * 0x100000000000000000000000000000000int);
            assert(-0x80000000000000000000000000000000int <= h
                <= 0x7fffffffffffffffffffffffffffffffint);
        }
        let high: i128 = if borrow {
            if self.high == i128::MIN {
                self.high - (rhs.high + 1)
            } else {
                (self.high - 1) - rhs.high
            }
        } else {
            self.high - rhs.high
        };
        Int256 { low, high }
    }
}

/// `x + y`, with the carry out of the 128-bit window made explicit.
fn add_with_carry(x: u128, y: u128) -> (r: (u128, bool))
    ensures
        r.0 == x + y - (if r.1 { 0x100000000000000000000000000000000int } else { 0int }),
{
    if u128::MAX - x >= y {
        (x + y, false)
    } else {
        (x - (u128::MAX - y) - 1, true)
    }
}

/// `x - y`, with the borrow out of the 128-bit window made explicit.
fn sub_with_borrow(x: u128, y: u128) -> (r: (u128, bool))
    ensures
        r.0 == x - y + (if r.1 { 0x100000000000000000000000000000000int } else { 0int }),
{
    if x >= y {
        (x - y, false)
    } else {
        (x + (u128::MAX - y) + 1, true)
    }
}

/// Two 256-bit integers that encode the same value have the same halves.
pub proof fn lemma_int256_value_injective(a: Int256, b: Int256)
    requires
        a@ == b@,
    ensures
        a == b,
{
    assert(a.low == b.low && a.high == b.high);
}

/// An arbitrary 256-bit integer in its canonical four-limb unsigned form:
/// the full two's-complement bit pattern, least significant limb first.
#[derive(Clone, Copy, Debug, PartialEq, Eq, Structural)]
pub struct I256 {
    pub l0: u64,
    pub l1: u64,
    pub l2: u64,
    pub l3: u64,
}

impl I256 {
    /// The unsigned value of the bit pattern, in `[0, 2^256)`.
    pub open spec fn as_nat(&self) -> int {
        limbs_as_nat(self.l0, self.l1, self.l2, self.l3)
    }

    /// Builds the four-limb form from little-endian limbs.
    pub fn new(limbs: [u64; 4]) -> (r: I256)
        ensures
            r.l0 == limbs[0] && r.l1 == limbs[1] && r.l2 == limbs[2] && r.l3 == limbs[3],
            r.as_nat() == limbs_as_nat(limbs[0], limbs[1], limbs[2], limbs[3]),
    {
        I256 { l0: limbs[0], l1: limbs[1], l2: limbs[2], l3: limbs[3] }
    }

    /// Lays out any 256-bit integer as four limbs, preserving the full
    /// two's-complement bit pattern: the limbs encode the value itself when
    /// it is non-negative, and the value plus `2^256` when it is negative.
    pub fn from(value: Int256) -> (r: I256)
        ensures
            r.as_nat() == if value@ >= 0 {
                value@
            } else {
                value@ + 0x10000000000000000000000000000000000000000000000000000000000000000int
            },
    {
        let (low, high) = value.to_parts();
        let high_bits: u128 = if high >= 0 {
            high as u128
        } else {
            u128::MAX - ((-(high + 1)) as u128)
        };
        proof {
            assert(high_bits == high
                + (if high < 0 { 0x100000000000000000000000000000000int } else { 0int }));
            lemma_fundamental_div_mod(low as int, 0x10000000000000000int);
            lemma_fundamental_div_mod(high_bits as int, 0x10000000000000000int);
        }
        I256::new([
            (low % 0x10000000000000000u128) as u64,
            (low / 0x10000000000000000u128) as u64,
            (high_bits % 0x10000000000000000u128) as u64,
            (high_bits / 0x10000000000000000u128) as u64,
        ])
    }
}

} // verus!
