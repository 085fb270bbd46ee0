//! Signed fixed-point numbers with 8 integer bits and 24 fractional bits.
//!
//! A [`Fixed`] stands for the rational number `bits / 2^24`. All arithmetic is
//! stated over the raw integers, so every contract in the crate that speaks of
//! a fixed-point value speaks of an exact integer.

use vstd::prelude::*;

verus! {

/// Raw representation of the value one.
pub const ONE_BITS: i32 = 0x0100_0000;

/// A number `bits / 2^24`, held as its raw 32-bit representation.
#[derive(Clone, Copy, Debug, PartialEq, Eq, Structural)]
pub struct Fixed {
    pub bits: i32,
}

/// The integer nearest to `x` that an `i32` can hold.
pub open spec fn clamp_i32(x: int) -> int {
    if x < i32::MIN as int {
        i32::MIN as int
    } else if x > i32::MAX as int {
        i32::MAX as int
    } else {
        x
    }
}

/// The raw value nearest to `x` that lies between zero and one.
pub open spec fn clamp_unit_bits(x: int) -> int {
    if x < 0 {
        0
    } else if x > ONE_BITS as int {
        ONE_BITS as int
    } else {
        x
    }
}

/// Absolute value of an integer.
pub open spec fn abs_int(x: int) -> int {
    if x < 0 {
        -x
    } else {
        x
    }
}

/// Raw bits of the product of two raw values, rounded towards negative infinity.
pub open spec fn mul_bits(a: int, b: int) -> int {
    (a * b) / (ONE_BITS as int)
}

/// Raw bits of the quotient of two raw values, rounded towards zero.
pub open spec fn div_bits(a: int, b: int) -> int
    recommends
        b != 0,
{
    let n = abs_int(a) * (ONE_BITS as int);
    if (a >= 0) == (b > 0) {
        n / abs_int(b)
    } else {
        -(n / abs_int(b))
    }
}

/// Raw bits of `num / den`, rounded towards zero.
pub open spec fn ratio_bits(num: int, den: int) -> int
    recommends
        den > 0,
{
    (num * (ONE_BITS as int)) / den
}

/// The product of two 32-bit values fits in 63 bits.
pub proof fn lemma_product_bounds(a: int, b: int)
    requires
        i32::MIN <= a <= i32::MAX,
        i32::MIN <= b <= i32::MAX,
    ensures
        -0x4000_0000_0000_0000 <= a * b <= 0x4000_0000_0000_0000,
{
    assert(-0x4000_0000_0000_0000 <= a * b <= 0x4000_0000_0000_0000) by (nonlinear_arith)
        requires
            -0x8000_0000 <= a <= 0x7fff_ffff,
            -0x8000_0000 <= b <= 0x7fff_ffff,
    ;
}

/// Multiplying by one, or by zero, does what it says, exactly.
pub proof fn lemma_mul_bits_identities(a: int)
    ensures
        mul_bits(a, ONE_BITS as int) == a,
        mul_bits(ONE_BITS as int, a) == a,
        mul_bits(a, 0) == 0,
        mul_bits(0, a) == 0,
{
    assert(a * 0x0100_0000 == 0x0100_0000 * a) by (nonlinear_arith);
    assert(a * 0 == 0 && 0 * a == 0) by (nonlinear_arith);
}

impl Fixed {
    /// The value this number stands for, scaled by `2^24`.
    pub open spec fn raw(self) -> int {
        self.bits as int
    }

    /// Zero, in specifications.
    pub open spec fn spec_zero() -> Fixed {
        Fixed { bits: 0 }
    }

    /// One, in specifications.
    pub open spec fn spec_one() -> Fixed {
        Fixed { bits: ONE_BITS }
    }

    /// Whether the value lies between zero and one, both included.
    pub open spec fn in_unit(self) -> bool {
        0 <= self.bits <= ONE_BITS
    }

    /// Builds a number from its raw representation.
    pub fn from_bits(bits: i32) -> (r: Fixed)
        ensures
            r.bits == bits,
    {
        Fixed { bits }
    }

    /// Raw representation of this number.
    pub fn to_bits(self) -> (r: i32)
        ensures
            r == self.bits,
    {
        self.bits
    }

    /// The value zero.
    #[verifier::when_used_as_spec(spec_zero)]
    pub fn zero() -> (r: Fixed)
        ensures
            r == Fixed::spec_zero(),
    {
        Fixed { bits: 0 }
    }

    /// The value one.
    #[verifier::when_used_as_spec(spec_one)]
    pub fn one() -> (r: Fixed)
        ensures
            r == Fixed::spec_one(),
    {
        Fixed { bits: ONE_BITS }
    }

    /// The fraction `num / den` of two counts, rounded towards zero.
    pub fn from_ratio(num: u32, den: u32) -> (r: Fixed)
        requires
            den > 0,
            num <= den,
        ensures
            r.raw() == ratio_bits(num as int, den as int),
            r.in_unit(),
            num < den ==> r.bits < ONE_BITS,
    {
        let n: u64 = (num as u64) * 0x0100_0000u64;
        let q: u64 = n / (den as u64);
        assert(q <= 0x0100_0000 && (num < den ==> q < 0x0100_0000)) by (nonlinear_arith)
            requires
                q == (num as int * 0x0100_0000) / (den as int),
                den > 0,
                num <= den,
        ;
        Fixed { bits: q as i32 }
    }

    /// Sum, saturated at the ends of the range.
    pub fn saturating_add(self, rhs: Fixed) -> (r: Fixed)
        ensures
            r.raw() == clamp_i32(self.raw() + rhs.raw()),
    {
        let s: i64 = (self.bits as i64) + (rhs.bits as i64);
        Fixed { bits: Self::narrow(s) }
    }

    /// Difference, saturated at the ends of the range.
    pub fn saturating_sub(self, rhs: Fixed) -> (r: Fixed)
        ensures
            r.raw() == clamp_i32(self.raw() - rhs.raw()),
    {
        let s: i64 = (self.bits as i64) - (rhs.bits as i64);
        Fixed { bits: Self::narrow(s) }
    }

    /// Product, rounded down and saturated at the ends of the range.
    pub fn saturating_mul(self, rhs: Fixed) -> (r: Fixed)
        ensures
            r.raw() == clamp_i32(mul_bits(self.raw(), rhs.raw())),
    {
        proof {
            lemma_product_bounds(self.bits as int, rhs.bits as int);
        }
        let p: i64 = (self.bits as i64) * (rhs.bits as i64);
        let q: i64 = p / 0x0100_0000i64;
        let m: i64 = p % 0x0100_0000i64;
        let f: i64 = if m < 0 {
            q - 1
        } else {
            q
        };
        Fixed { bits: Self::narrow(f) }
    }

    /// Quotient, rounded towards zero and saturated at the ends of the range;
    /// `None` exactly when the divisor is zero.
    pub fn checked_div(self, rhs: Fixed) -> (r: Option<Fixed>)
        ensures
            rhs.bits == 0 <==> r is None,
            r matches Some(q) ==> q.raw() == clamp_i32(div_bits(self.raw(), rhs.raw())),
    {
        if rhs.bits == 0 {
            return None;
        }
        let a: i64 = self.bits as i64;
        let b: i64 = rhs.bits as i64;
        let n: i64 = if a < 0 {
            -a
        } else {
            a
        } * 0x0100_0000i64;
        let d: i64 = if b < 0 {
            -b
        } else {
            b
        };
        let m: i64 = n / d;
        let q: i64 = if (a >= 0) == (b > 0) {
            m
        } else {
            -m
        };
        Some(Fixed { bits: Self::narrow(q) })
    }

    /// The nearest value between zero and one.
    pub fn clamp_unit(self) -> (r: Fixed)
        ensures
            r.raw() == clamp_unit_bits(self.raw()),
            r.in_unit(),
    {
        if self.bits < 0 {
            Fixed { bits: 0 }
        } else if self.bits > ONE_BITS {
            Fixed { bits: ONE_BITS }
        } else {
            self
        }
    }

    /// The larger of two values.
    pub fn max(self, rhs: Fixed) -> (r: Fixed)
        ensures
            r == Fixed::spec_max(self, rhs),
    {
        if self.bits >= rhs.bits {
            self
        } else {
            rhs
        }
    }

    /// The larger of two values, in specifications.
    pub open spec fn spec_max(self, rhs: Fixed) -> Fixed {
        if self.bits >= rhs.bits {
            self
        } else {
            rhs
        }
    }

    /// Narrows a wide raw value to 32 bits, saturating.
    fn narrow(x: i64) -> (r: i32)
        ensures
            r as int == clamp_i32(x as int),
    {
        if x < -0x8000_0000i64 {
            i32::MIN
        } else if x > 0x7fff_ffffi64 {
            i32::MAX
        } else {
            x as i32
        }
    }
}

} // verus!
