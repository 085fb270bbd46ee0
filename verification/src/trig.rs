//! The sine of a fixed-point angle.

use vstd::prelude::*;
use crate::fixed::{clamp_i32, clamp_unit_bits, mul_bits, Fixed};

verus! {

/// Raw bits of one half.
pub const HALF_BITS: i32 = 0x0080_0000;

/// The sine that `libm::sinf` gives for the angle with raw bits `angle`, in
/// radians, as raw bits; `None` where its result has no fixed-point value.
pub uninterp spec fn sine_bits(angle: i32) -> Option<i32>;

/// `libm::sinf` on a fixed-point angle. The angle goes to the nearest float by
/// `FixedI32::saturating_to_num`, the sine comes back by
/// `FixedI32::checked_from_num`, which gives `None` for a float that is not a
/// number or lies outside the range. The result is a function of the angle
/// alone; the contract gives it a name and claims nothing else of it.
#[verifier::external_body]
pub(crate) fn sine_raw(angle: i32) -> (r: Option<i32>)
    ensures
        r == sine_bits(angle),
{
    let x = fixed::types::I8F24::from_bits(angle);
    let y = libm::sinf(x.saturating_to_num());
    match fixed::types::I8F24::checked_from_num(y) {
        Some(s) => Some(s.to_bits()),
        None => None,
    }
}

/// The brightness a sine stands for, as raw bits: half the sine plus one half,
/// brought back between zero and one; one half where there is no sine.
pub open spec fn wave_level_bits(sine: Option<i32>) -> int {
    match sine {
        Some(s) => clamp_unit_bits(
            clamp_i32(clamp_i32(mul_bits(s as int, HALF_BITS as int)) + HALF_BITS),
        ),
        None => HALF_BITS as int,
    }
}

/// Maps a sine, which swings between minus one and one, to a brightness
/// between zero and one.
pub fn wave_level(sine: Option<i32>) -> (level: Fixed)
    ensures
        level.raw() == wave_level_bits(sine),
        level.in_unit(),
{
    match sine {
        Some(s) => Fixed::from_bits(s).saturating_mul(Fixed::from_bits(HALF_BITS)).saturating_add(
            Fixed::from_bits(HALF_BITS),
        ).clamp_unit(),
        None => Fixed::from_bits(HALF_BITS),
    }
}

/// The brightness of the sine wave at `angle`.
pub fn wave(angle: Fixed) -> (level: Fixed)
    ensures
        level.raw() == wave_level_bits(sine_bits(angle.bits)),
        level.in_unit(),
{
    wave_level(sine_raw(angle.bits))
}

} // verus!
