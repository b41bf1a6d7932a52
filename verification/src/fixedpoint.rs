//! Unsigned 64.64 fixed-point numbers.
//!
//! A value is a `u128` bit pattern `bits`; the number it denotes is
//! `bits / 2^64`.  All arithmetic is checked: an operation whose exact
//! rounded result does not fit in 128 bits reports failure instead of
//! wrapping.  Multiplication and division round toward zero (downward,
//! since everything is unsigned); they are carried out by the `fixed`
//! crate on the same bit patterns.

use vstd::prelude::*;

verus! {

/// The scale factor: one whole unit is `SCALE` bits (2^64).
pub const SCALE: u128 = 0x1_0000_0000_0000_0000;

/// Bit pattern of the largest representable value.
pub const MAX_BITS: u128 = 0xffff_ffff_ffff_ffff_ffff_ffff_ffff_ffff;

/// Exact mathematical product of two bit patterns, rounded down:
/// the bit pattern of `(a/2^64) * (b/2^64)` when it fits.
pub open spec fn fp_mul(a: int, b: int) -> int {
    (a * b) / (SCALE as int)
}

/// Exact mathematical quotient of two bit patterns, rounded down:
/// the bit pattern of `(a/2^64) / (b/2^64)` when it fits (`b != 0`).
pub open spec fn fp_div(a: int, b: int) -> int {
    (a * (SCALE as int)) / b
}

#[derive(Clone, Copy, Debug, PartialEq, Eq, Structural)]
pub struct FixedPoint {
    pub bits: u128,
}

/// What `checked_mul` returns, as a value.
pub open spec fn sp_checked_mul(a: FixedPoint, b: FixedPoint) -> Option<FixedPoint> {
    if fp_mul(a.bits as int, b.bits as int) <= MAX_BITS {
        Some(FixedPoint { bits: fp_mul(a.bits as int, b.bits as int) as u128 })
    } else {
        None
    }
}

/// What `checked_div` returns, as a value.
pub open spec fn sp_checked_div(a: FixedPoint, b: FixedPoint) -> Option<FixedPoint> {
    if b.bits == 0 {
        None
    } else if fp_div(a.bits as int, b.bits as int) <= MAX_BITS {
        Some(FixedPoint { bits: fp_div(a.bits as int, b.bits as int) as u128 })
    } else {
        None
    }
}

/// What `checked_add` returns, as a value.
pub open spec fn sp_checked_add(a: FixedPoint, b: FixedPoint) -> Option<FixedPoint> {
    if a.bits + b.bits <= MAX_BITS {
        Some(FixedPoint { bits: (a.bits + b.bits) as u128 })
    } else {
        None
    }
}

/// What `checked_sub` returns, as a value.
pub open spec fn sp_checked_sub(a: FixedPoint, b: FixedPoint) -> Option<FixedPoint> {
    if b.bits <= a.bits {
        Some(FixedPoint { bits: (a.bits - b.bits) as u128 })
    } else {
        None
    }
}

/// Relies on `fixed::types::U64F64::checked_mul` (fixed 1.31): the 256-bit
/// product of the operands shifted right by 64 bits, or `None` when that
/// value needs more than 128 bits.
#[verifier::external_body]
fn mul_bits(a: u128, b: u128) -> (r: Option<u128>)
    ensures
        r == (if (a * b) / (SCALE as int) <= MAX_BITS {
            Some((((a * b) / (SCALE as int)) as u128))
        } else {
            None::<u128>
        }),
{
    fixed::types::U64F64::from_bits(a)
        .checked_mul(fixed::types::U64F64::from_bits(b))
        .map(|x| x.to_bits())
}

/// Relies on `fixed::types::U64F64::checked_div` (fixed 1.31): the dividend
/// widened to 192 bits by a 64-bit left shift, divided by the divisor and
/// rounded down; `None` when the divisor is zero or the quotient needs more
/// than 128 bits.
#[verifier::external_body]
fn div_bits(a: u128, b: u128) -> (r: Option<u128>)
    ensures
        r == (if b == 0 {
            None::<u128>
        } else if (a * (SCALE as int)) / (b as int) <= MAX_BITS {
            Some((((a * (SCALE as int)) / (b as int)) as u128))
        } else {
            None::<u128>
        }),
{
    fixed::types::U64F64::from_bits(a)
        .checked_div(fixed::types::U64F64::from_bits(b))
        .map(|x| x.to_bits())
}

impl FixedPoint {
    /// The value zero.
    pub fn zero() -> (r: FixedPoint)
        ensures
            r.bits == 0,
    {
        FixedPoint { bits: 0 }
    }

    /// The value one.
    pub fn one() -> (r: FixedPoint)
        ensures
            r.bits == SCALE,
    {
        FixedPoint { bits: SCALE }
    }

    /// The given bit pattern, as a value.
    pub fn from_bits(bits: u128) -> (r: FixedPoint)
        ensures
            r.bits == bits,
    {
        FixedPoint { bits }
    }

    /// The integer `q`, exactly.
    pub fn from_num(q: u64) -> (r: FixedPoint)
        ensures
            r.bits == q * SCALE,
    {
        FixedPoint { bits: (q as u128) * SCALE }
    }

    pub fn checked_add(self, other: FixedPoint) -> (r: Option<FixedPoint>)
        ensures
            r == sp_checked_add(self, other),
    {
        match self.bits.checked_add(other.bits) {
            Some(bits) => Some(FixedPoint { bits }),
            None => None,
        }
    }

    pub fn checked_sub(self, other: FixedPoint) -> (r: Option<FixedPoint>)
        ensures
            r == sp_checked_sub(self, other),
    {
        match self.bits.checked_sub(other.bits) {
            Some(bits) => Some(FixedPoint { bits }),
            None => None,
        }
    }

    pub fn checked_mul(self, other: FixedPoint) -> (r: Option<FixedPoint>)
        ensures
            r == sp_checked_mul(self, other),
    {
        match mul_bits(self.bits, other.bits) {
            Some(bits) => Some(FixedPoint { bits }),
            None => None,
        }
    }

    pub fn checked_div(self, other: FixedPoint) -> (r: Option<FixedPoint>)
        ensures
            r == sp_checked_div(self, other),
    {
        match div_bits(self.bits, other.bits) {
            Some(bits) => Some(FixedPoint { bits }),
            None => None,
        }
    }

    /// The integer part, rounding down.
    pub fn floor_to_u64(self) -> (r: u64)
        ensures
            r == self.bits / SCALE,
    {
        proof {
            lemma_bits_div_scale_fits(self.bits);
        }
        (self.bits / SCALE) as u64
    }

    /// The value rounded up to an integer; `None` when that integer is 2^64.
    pub fn ceil_to_u64(self) -> (r: Option<u64>)
        ensures
            r == (if self.bits % SCALE == 0 {
                Some((self.bits / SCALE) as u64)
            } else if self.bits / SCALE < 0xffff_ffff_ffff_ffffu64 {
                Some((self.bits / SCALE + 1) as u64)
            } else {
                None::<u64>
            }),
    {
        proof {
            lemma_bits_div_scale_fits(self.bits);
        }
        let q = (self.bits / SCALE) as u64;
        if self.bits % SCALE == 0 {
            Some(q)
        } else if q < 0xffff_ffff_ffff_ffffu64 {
            Some(q + 1)
        } else {
            None
        }
    }

    pub fn lt(self, other: FixedPoint) -> (r: bool)
        ensures
            r == (self.bits < other.bits),
    {
        self.bits < other.bits
    }

    pub fn le(self, other: FixedPoint) -> (r: bool)
        ensures
            r == (self.bits <= other.bits),
    {
        self.bits <= other.bits
    }

    pub fn is_zero(self) -> (r: bool)
        ensures
            r == (self.bits == 0),
    {
        self.bits == 0
    }
}

/// A bit pattern divided by the scale always fits in 64 bits.
proof fn lemma_bits_div_scale_fits(bits: u128)
    ensures
        bits / SCALE <= 0xffff_ffff_ffff_ffffu64,
{
    assert(bits / SCALE <= 0xffff_ffff_ffff_ffffu64) by (nonlinear_arith)
        requires
            bits <= MAX_BITS,
    ;
}

/// The product of bit patterns, rounded down, is never negative.
pub proof fn lemma_fp_mul_nonneg(a: int, b: int)
    requires
        a >= 0,
        b >= 0,
    ensures
        fp_mul(a, b) >= 0,
{
    assert((a * b) / (SCALE as int) >= 0) by (nonlinear_arith)
        requires
            a >= 0,
            b >= 0,
    ;
}

/// The quotient of bit patterns, rounded down, is never negative.
pub proof fn lemma_fp_div_nonneg(a: int, b: int)
    requires
        a >= 0,
        b > 0,
    ensures
        fp_div(a, b) >= 0,
{
    assert((a * (SCALE as int)) / b >= 0) by (nonlinear_arith)
        requires
            a >= 0,
            b > 0,
    ;
}

} // verus!
