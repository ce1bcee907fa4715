//! The bidirectional mapping between the field's signed reading and the
//! 256-bit two's-complement range.
//!
//! Every scalar's signed reading lies in the symmetric window
//! `[-(p-1)/2, (p-1)/2]`, which sits well inside the 256-bit range; the
//! forward map is therefore total, and the backward map succeeds exactly on
//! that window.

use vstd::prelude::*;
use vstd::arithmetic::div_mod::lemma_fundamental_div_mod;
use crate::limbs::limbs_as_nat;
use crate::scalar::{Scalar, group_order, max_signed_value, lemma_signed_value_injective};
use crate::int256::{Int256, lemma_int256_value_injective};

verus! {

/// The largest 256-bit integer a scalar reaches: `(p - 1) / 2`.
pub open spec fn max_supported() -> int {
    max_signed_value()
}

/// The smallest 256-bit integer a scalar reaches: `-(p - 1) / 2`.
pub open spec fn min_supported() -> int {
    -max_signed_value()
}

/// The bound `(p - 1) / 2` as a 256-bit integer.
pub fn max_supported_i256() -> (r: Int256)
    ensures
        r@ == max_supported(),
{
    Int256 {
        low: 13871158888686176767925968895441824246,
        high: 10633823966279326983230456482242756608,
    }
}

/// The bound `-(p - 1) / 2` as a 256-bit integer.
pub fn min_supported_i256() -> (r: Int256)
    ensures
        r@ == min_supported(),
{
    Int256 {
        low: 326411208032252286695448638536326387210,
        high: -10633823966279326983230456482242756609,
    }
}

/// Maps a field scalar to the 256-bit integer of its signed reading.
/// Total: every canonical scalar has a signed reading inside the window.
pub fn convert_scalar_to_i256(val: &Scalar) -> (r: Int256)
    requires
        val.wf(),
    ensures
        r@ == val.signed_value(),
{
    let max_signed = Scalar::max_signed();
    let is_negative = val.gt(&max_signed);
    let abs_scalar = if is_negative { val.neg() } else { *val };
    let limbs = abs_scalar.to_limbs();
    proof {
        assert(abs_scalar.as_nat() <= max_signed_value());
        assert(limbs[3] < 0x1000000000000000u64) by {
            assert(limbs[3] * 0x1000000000000000000000000000000000000000000000000int
                <= limbs_as_nat(limbs[0], limbs[1], limbs[2], limbs[3]));
        }
    }
    let low: u128 = (limbs[0] as u128) + (limbs[1] as u128) * 0x10000000000000000;
    let high_bits: u128 = (limbs[2] as u128) + (limbs[3] as u128) * 0x10000000000000000;
    let high: i128 = high_bits as i128;
    let abs_i256 = Int256::from_parts(low, high);
    if is_negative {
        abs_i256.wrapping_neg()
    } else {
        abs_i256
    }
}

/// Maps a 256-bit integer back to the field scalar with that signed reading.
/// Succeeds exactly on the window `[min_supported, max_supported]`; outside
/// the window no scalar reads as the given integer, and the result is `None`.
pub fn convert_i256_to_scalar(value: &Int256) -> (r: Option<Scalar>)
    ensures
        match r {
            Some(s) => {
                &&& min_supported() <= value@ <= max_supported()
                &&& s.wf()
                &&& s.signed_value() == value@
            },
            None => value@ < min_supported() || value@ > max_supported(),
        },
{
    if value.lt(&min_supported_i256()) || max_supported_i256().lt(value) {
        None
    } else {
        let is_negative = value.is_negative();
        let abs_value = if is_negative { value.wrapping_neg() } else { *value };
        let (low, high) = abs_value.to_parts();
        proof {
            assert(0 <= abs_value@ <= max_supported());
            assert(high >= 0);
        }
        let high_bits: u128 = high as u128;
        proof {
            lemma_fundamental_div_mod(low as int, 0x10000000000000000int);
            lemma_fundamental_div_mod(high_bits as int, 0x10000000000000000int);
        }
        let limbs: [u64; 4] = [
            (low % 0x10000000000000000u128) as u64,
            (low / 0x10000000000000000u128) as u64,
            (high_bits % 0x10000000000000000u128) as u64,
            (high_bits / 0x10000000000000000u128) as u64,
        ];
        let scalar = Scalar::from_limbs(limbs);
        Some(if is_negative { scalar.neg() } else { scalar })
    }
}

/// Total round trip: the forward map sends every canonical scalar into the
/// supported window, so the backward map accepts its output, and the only
/// scalar whose signed reading matches is the original one.
pub proof fn lemma_round_trip_from_scalar(s: Scalar, v: Int256, back: Scalar)
    requires
        s.wf(),
        v@ == s.signed_value(),
        back.wf(),
        back.signed_value() == v@,
    ensures
        min_supported() <= v@ <= max_supported(),
        back == s,
{
    lemma_signed_value_in_window(s);
    lemma_signed_value_injective(s, back);
}

/// Bounded round trip: for an integer inside the supported window, the
/// scalar the backward map yields is sent by the forward map to exactly
/// that integer again.
pub proof fn lemma_round_trip_from_i256(v: Int256, s: Scalar, back: Int256)
    requires
        min_supported() <= v@ <= max_supported(),
        s.wf(),
        s.signed_value() == v@,
        back@ == s.signed_value(),
    ensures
        back == v,
{
    lemma_int256_value_injective(v, back);
}

/// The supported window is symmetric and holds every scalar's signed reading.
pub proof fn lemma_signed_value_in_window(s: Scalar)
    requires
        s.wf(),
    ensures
        min_supported() <= s.signed_value() <= max_supported(),
        min_supported() == -max_supported(),
{
}

} // verus!
