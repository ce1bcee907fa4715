//! A scalar of the prime field of order `p = 2^252 + 27742317777372353535851937790883648493`,
//! held as four 64-bit limbs in canonical reduced form.

use vstd::prelude::*;
use crate::limbs::{limbs_as_nat, lemma_limbs_unique};

verus! {

/// Limbs of the field order `p`, least significant first.
pub const GROUP_ORDER_LIMB_0: u64 = 6346243789798364141;
pub const GROUP_ORDER_LIMB_1: u64 = 1503914060200516822;
pub const GROUP_ORDER_LIMB_2: u64 = 0;
pub const GROUP_ORDER_LIMB_3: u64 = 1152921504606846976;

/// Limbs of `(p - 1) / 2`, least significant first.
pub const MAX_SIGNED_LIMB_0: u64 = 3173121894899182070;
pub const MAX_SIGNED_LIMB_1: u64 = 751957030100258411;
pub const MAX_SIGNED_LIMB_2: u64 = 0;
pub const MAX_SIGNED_LIMB_3: u64 = 576460752303423488;

/// The order of the scalar field.
pub open spec fn group_order() -> int {
    0x1000000000000000000000000000000014def9dea2f79cd65812631a5cf5d3edint
}

/// The dividing line `(p - 1) / 2` between residues read as non-negative
/// integers and residues read as negative integers.
pub open spec fn max_signed_value() -> int {
    (group_order() - 1) / 2
}

/// A canonical field element: four little-endian 64-bit limbs whose
/// composed value lies strictly below the field order.
#[derive(Clone, Copy, Debug, PartialEq, Eq, Structural)]
pub struct Scalar {
    pub l0: u64,
    pub l1: u64,
    pub l2: u64,
    pub l3: u64,
}

impl Scalar {
    /// The canonical representative in `[0, p)`.
    pub open spec fn as_nat(&self) -> int {
        limbs_as_nat(self.l0, self.l1, self.l2, self.l3)
    }

    /// Canonical reduced form: the representative lies below the field order.
    pub open spec fn wf(&self) -> bool {
        self.as_nat() < group_order()
    }

    /// The signed reading: residues up to `(p-1)/2` stand for themselves,
    /// larger residues stand for `residue - p`.
    pub open spec fn signed_value(&self) -> int {
        if self.as_nat() <= max_signed_value() {
            self.as_nat()
        } else {
            self.as_nat() - group_order()
        }
    }

    /// Imports four little-endian limbs; the caller owes a value below `p`.
    pub fn from_limbs(limbs: [u64; 4]) -> (r: Scalar)
        requires
            limbs_as_nat(limbs[0], limbs[1], limbs[2], limbs[3]) < group_order(),
        ensures
            r.wf(),
            r.as_nat() == limbs_as_nat(limbs[0], limbs[1], limbs[2], limbs[3]),
    {
        Scalar { l0: limbs[0], l1: limbs[1], l2: limbs[2], l3: limbs[3] }
    }

    /// Exports the canonical representative as four little-endian limbs.
    pub fn to_limbs(&self) -> (r: [u64; 4])
        ensures
            limbs_as_nat(r[0], r[1], r[2], r[3]) == self.as_nat(),
            r[0] == self.l0 && r[1] == self.l1 && r[2] == self.l2 && r[3] == self.l3,
    {
        [self.l0, self.l1, self.l2, self.l3]
    }

    /// The largest residue read as non-negative: `(p - 1) / 2`.
    pub fn max_signed() -> (r: Scalar)
        ensures
            r.wf(),
            r.as_nat() == max_signed_value(),
    {
        Scalar {
            l0: MAX_SIGNED_LIMB_0,
            l1: MAX_SIGNED_LIMB_1,
            l2: MAX_SIGNED_LIMB_2,
            l3: MAX_SIGNED_LIMB_3,
        }
    }

    /// Strict order on canonical representatives.
    pub fn gt(&self, other: &Scalar) -> (r: bool)
        ensures
            r == (self.as_nat() > other.as_nat()),
    {
        if self.l3 != other.l3 {
            self.l3 > other.l3
        } else if self.l2 != other.l2 {
            self.l2 > other.l2
        } else if self.l1 != other.l1 {
            self.l1 > other.l1
        } else {
            self.l0 > other.l0
        }
    }

    /// The field additive inverse: zero stays zero, any other residue `s`
    /// becomes `p - s`.
    pub fn neg(&self) -> (r: Scalar)
        requires
            self.wf(),
        ensures
            r.wf(),
            r.as_nat() == if self.as_nat() == 0 { 0int } else { group_order() - self.as_nat() },
    {
        if self.l0 == 0 && self.l1 == 0 && self.l2 == 0 && self.l3 == 0 {
            return *self;
        }
        let (r0, b0) = sub_with_borrow(GROUP_ORDER_LIMB_0, self.l0, false);
        let (r1, b1) = sub_with_borrow(GROUP_ORDER_LIMB_1, self.l1, b0);
        let (r2, b2) = sub_with_borrow(GROUP_ORDER_LIMB_2, self.l2, b1);
        let (r3, b3) = sub_with_borrow(GROUP_ORDER_LIMB_3, self.l3, b2);
        let r = Scalar { l0: r0, l1: r1, l2: r2, l3: r3 };
        proof {
            assert(r.as_nat() == group_order() - self.as_nat()
                + (if b3 { 0x10000000000000000000000000000000000000000000000000000000000000000int } else { 0int }));
            assert(r.as_nat() < 0x10000000000000000000000000000000000000000000000000000000000000000int);
            assert(!b3);
        }
        r
    }

    /// Embeds a 64-bit signed integer under the signed reading.
    pub fn from_i64(x: i64) -> (r: Scalar)
        ensures
            r.wf(),
            r.signed_value() == x,
    {
        if x >= 0 {
            Scalar { l0: x as u64, l1: 0, l2: 0, l3: 0 }
        } else {
            let magnitude: u64 = ((-(x + 1)) as u64) + 1;
            let s = Scalar { l0: magnitude, l1: 0, l2: 0, l3: 0 };
            s.neg()
        }
    }
}

/// `x - y - borrow`, with the borrow out of the 64-bit window made explicit.
fn sub_with_borrow(x: u64, y: u64, borrow: bool) -> (r: (u64, bool))
    ensures
        r.0 == x - y - (if borrow { 1int } else { 0int })
            + (if r.1 { 0x10000000000000000int } else { 0int }),
{
    let yb: u128 = (y as u128) + (if borrow { 1u128 } else { 0u128 });
    let xx: u128 = x as u128;
    if xx >= yb {
        ((xx - yb) as u64, false)
    } else {
        ((xx + 0x10000000000000000u128 - yb) as u64, true)
    }
}

/// Distinct canonical scalars have distinct signed readings.
pub proof fn lemma_signed_value_injective(a: Scalar, b: Scalar)
    requires
        a.wf(),
        b.wf(),
        a.signed_value() == b.signed_value(),
    ensures
        a == b,
{
    assert(a.as_nat() == b.as_nat());
    lemma_limbs_unique(a.l0, a.l1, a.l2, a.l3, b.l0, b.l1, b.l2, b.l3);
}

} // verus!
