//! The little-endian four-limb reading of 256-bit values.

use vstd::prelude::*;

verus! {

/// The unsigned integer encoded by four 64-bit limbs, least significant first.
pub open spec fn limbs_as_nat(l0: u64, l1: u64, l2: u64, l3: u64) -> int {
    l0 + l1 * 0x10000000000000000int + l2 * 0x100000000000000000000000000000000int
        + l3 * 0x1000000000000000000000000000000000000000000000000int
}

/// Four limbs encode each value below `2^256` in exactly one way.
pub proof fn lemma_limbs_unique(a0: u64, a1: u64, a2: u64, a3: u64, b0: u64, b1: u64, b2: u64, b3: u64)
    requires
        limbs_as_nat(a0, a1, a2, a3) == limbs_as_nat(b0, b1, b2, b3),
    ensures
        a0 == b0 && a1 == b1 && a2 == b2 && a3 == b3,
{
    let k1 = (a1 - b1) + (a2 - b2) * 0x10000000000000000int
        + (a3 - b3) * 0x100000000000000000000000000000000int;
    assert(a0 - b0 + k1 * 0x10000000000000000int == 0);
    assert(k1 == 0);
    let k2 = (a2 - b2) + (a3 - b3) * 0x10000000000000000int;
    assert(a1 - b1 + k2 * 0x10000000000000000int == 0);
    assert(k2 == 0);
    assert(a2 - b2 + (a3 - b3) * 0x10000000000000000int == 0);
}

} // verus!
