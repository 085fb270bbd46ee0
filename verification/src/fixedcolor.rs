//! Colours with four fixed-point channels and saturating arithmetic.

use vstd::prelude::*;
use crate::fixed::{clamp_i32, clamp_unit_bits, mul_bits, Fixed, ONE_BITS};

verus! {

/// A colour: red, green, blue and alpha, each nominally between zero and one.
#[derive(Clone, Copy, Debug, PartialEq, Eq, Structural)]
pub struct FixedColor {
    pub r: Fixed,
    pub g: Fixed,
    pub b: Fixed,
    pub a: Fixed,
}

/// The 8-bit value nearest to a raw channel: zero below zero, 255 from one upwards.
pub open spec fn channel_to_u8(bits: int) -> int {
    if bits >= ONE_BITS as int {
        255
    } else if bits < 0 {
        0
    } else {
        (bits * 255 + 0x0080_0000) / (ONE_BITS as int)
    }
}

/// The raw channel nearest to `c / 255`.
pub open spec fn u8_to_channel(c: int) -> int {
    (c * (ONE_BITS as int) + 127) / 255
}

/// A raw channel multiplied by a raw factor, brought back between zero and one.
pub open spec fn scale_channel(bits: int, factor: int) -> int {
    clamp_unit_bits(mul_bits(bits, factor))
}

/// The sum of two raw channels, brought back between zero and one.
pub open spec fn add_channel(x: int, y: int) -> int {
    clamp_unit_bits(x + y)
}

impl FixedColor {
    /// Opaque white.
    pub open spec fn spec_white() -> FixedColor {
        FixedColor { r: Fixed::spec_one(), g: Fixed::spec_one(), b: Fixed::spec_one(), a: Fixed::spec_one() }
    }

    /// The colour whose four channels are zero.
    pub open spec fn spec_default() -> FixedColor {
        FixedColor { r: Fixed::spec_zero(), g: Fixed::spec_zero(), b: Fixed::spec_zero(), a: Fixed::spec_zero() }
    }

    /// Whether red, green and blue all lie between zero and one.
    pub open spec fn in_unit(self) -> bool {
        self.r.in_unit() && self.g.in_unit() && self.b.in_unit()
    }

    /// The three 8-bit channels of this colour, in specifications.
    pub open spec fn spec_as_rgb8(&self) -> (u8, u8, u8) {
        (
            channel_to_u8(self.r.raw()) as u8,
            channel_to_u8(self.g.raw()) as u8,
            channel_to_u8(self.b.raw()) as u8,
        )
    }

    /// The opaque colour of three 8-bit channels, in specifications.
    pub open spec fn spec_from_rgb8(r: u8, g: u8, b: u8) -> FixedColor {
        FixedColor {
            r: Fixed { bits: u8_to_channel(r as int) as i32 },
            g: Fixed { bits: u8_to_channel(g as int) as i32 },
            b: Fixed { bits: u8_to_channel(b as int) as i32 },
            a: Fixed::spec_one(),
        }
    }

    /// This colour with red, green and blue multiplied by `scale`, in specifications.
    pub open spec fn spec_scale(&self, scale: Fixed) -> FixedColor {
        FixedColor {
            r: Fixed { bits: scale_channel(self.r.raw(), scale.raw()) as i32 },
            g: Fixed { bits: scale_channel(self.g.raw(), scale.raw()) as i32 },
            b: Fixed { bits: scale_channel(self.b.raw(), scale.raw()) as i32 },
            a: self.a,
        }
    }

    /// The channel-wise saturated sum of two colours, in specifications.
    pub open spec fn spec_saturating_add(&self, other: FixedColor) -> FixedColor {
        FixedColor {
            r: Fixed { bits: add_channel(self.r.raw(), other.r.raw()) as i32 },
            g: Fixed { bits: add_channel(self.g.raw(), other.g.raw()) as i32 },
            b: Fixed { bits: add_channel(self.b.raw(), other.b.raw()) as i32 },
            a: self.a,
        }
    }

    /// Opaque white.
    #[verifier::when_used_as_spec(spec_white)]
    pub fn white() -> (c: FixedColor)
        ensures
            c == FixedColor::spec_white(),
    {
        FixedColor { r: Fixed::one(), g: Fixed::one(), b: Fixed::one(), a: Fixed::one() }
    }

    /// An opaque colour of the three given channels, taken as they are.
    pub fn rgb(r: Fixed, g: Fixed, b: Fixed) -> (c: FixedColor)
        ensures
            c == (FixedColor { r, g, b, a: Fixed::spec_one() }),
    {
        FixedColor { r, g, b, a: Fixed::one() }
    }

    /// The three channels as 8-bit values, rounded to nearest; a channel from one
    /// upwards gives 255, a negative one gives 0.
    #[verifier::when_used_as_spec(spec_as_rgb8)]
    pub fn as_rgb8(&self) -> (out: (u8, u8, u8))
        ensures
            out == self.spec_as_rgb8(),
    {
        (Self::channel_as_u8(self.r), Self::channel_as_u8(self.g), Self::channel_as_u8(self.b))
    }

    /// The opaque colour whose channels are nearest to `r / 255`, `g / 255`, `b / 255`.
    #[verifier::when_used_as_spec(spec_from_rgb8)]
    pub fn from_rgb8(r: u8, g: u8, b: u8) -> (c: FixedColor)
        ensures
            c == FixedColor::spec_from_rgb8(r, g, b),
            c.in_unit(),
    {
        FixedColor {
            r: Self::channel_from_u8(r),
            g: Self::channel_from_u8(g),
            b: Self::channel_from_u8(b),
            a: Fixed::one(),
        }
    }

    /// Multiplies red, green and blue by `scale` and brings each back between
    /// zero and one; alpha is kept.
    #[verifier::when_used_as_spec(spec_scale)]
    pub fn scale(&self, scale: Fixed) -> (c: FixedColor)
        ensures
            c == self.spec_scale(scale),
            c.in_unit(),
            c.a == self.a,
            scale.bits == 0 ==> c.r.bits == 0 && c.g.bits == 0 && c.b.bits == 0,
    {
        proof {
            crate::fixed::lemma_mul_bits_identities(self.r.raw());
            crate::fixed::lemma_mul_bits_identities(self.g.raw());
            crate::fixed::lemma_mul_bits_identities(self.b.raw());
        }
        FixedColor {
            r: self.r.saturating_mul(scale).clamp_unit(),
            g: self.g.saturating_mul(scale).clamp_unit(),
            b: self.b.saturating_mul(scale).clamp_unit(),
            a: self.a,
        }
    }

    /// Adds red, green and blue channel by channel and brings each sum back
    /// between zero and one; the alpha of `self` is kept.
    #[verifier::when_used_as_spec(spec_saturating_add)]
    pub fn saturating_add(&self, other: FixedColor) -> (c: FixedColor)
        ensures
            c == self.spec_saturating_add(other),
            c.in_unit(),
            c.a == self.a,
    {
        FixedColor {
            r: self.r.saturating_add(other.r).clamp_unit(),
            g: self.g.saturating_add(other.g).clamp_unit(),
            b: self.b.saturating_add(other.b).clamp_unit(),
            a: self.a,
        }
    }

    /// One channel as an 8-bit value.
    fn channel_as_u8(value: Fixed) -> (out: u8)
        ensures
            out as int == channel_to_u8(value.raw()),
    {
        if value.bits >= ONE_BITS {
            255
        } else if value.bits < 0 {
            0
        } else {
            let n: u64 = (value.bits as u64) * 255u64 + 0x0080_0000u64;
            (n / 0x0100_0000u64) as u8
        }
    }

    /// One 8-bit value as a channel.
    fn channel_from_u8(c: u8) -> (out: Fixed)
        ensures
            out.raw() == u8_to_channel(c as int),
            out.in_unit(),
    {
        let n: u64 = (c as u64) * 0x0100_0000u64 + 127u64;
        Fixed { bits: (n / 255u64) as i32 }
    }
}

impl Default for FixedColor {
    /// The colour whose four channels are zero.
    fn default() -> (c: FixedColor)
        ensures
            c == FixedColor::spec_default(),
    {
        FixedColor { r: Fixed::zero(), g: Fixed::zero(), b: Fixed::zero(), a: Fixed::zero() }
    }
}

/// Scaling keeps every channel between zero and one and leaves alpha alone;
/// scaling by zero gives the zero colour with the alpha it had.
pub proof fn lemma_scale_saturates(c: FixedColor, s: Fixed)
    ensures
        c.spec_scale(s).in_unit(),
        c.spec_scale(s).a == c.a,
        c.spec_scale(Fixed::spec_zero()) == (FixedColor {
            r: Fixed::spec_zero(),
            g: Fixed::spec_zero(),
            b: Fixed::spec_zero(),
            a: c.a,
        }),
{
    crate::fixed::lemma_mul_bits_identities(c.r.raw());
    crate::fixed::lemma_mul_bits_identities(c.g.raw());
    crate::fixed::lemma_mul_bits_identities(c.b.raw());
}

/// Scaling by one leaves a colour whose channels lie between zero and one as it is.
pub proof fn lemma_scale_by_one(c: FixedColor)
    requires
        c.in_unit(),
    ensures
        c.spec_scale(Fixed::spec_one()) == c,
{
    crate::fixed::lemma_mul_bits_identities(c.r.raw());
    crate::fixed::lemma_mul_bits_identities(c.g.raw());
    crate::fixed::lemma_mul_bits_identities(c.b.raw());
}

/// Three 8-bit channels survive the way into a colour and back.
pub proof fn lemma_rgb8_round_trip(r: u8, g: u8, b: u8)
    ensures
        FixedColor::spec_from_rgb8(r, g, b).spec_as_rgb8() == (r, g, b),
        FixedColor::spec_from_rgb8(r, g, b).in_unit(),
{
}

} // verus!
