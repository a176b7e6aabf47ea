//! Fixed-point scalar used for audio samples and low-frequency control
//! values.
//!
//! An [`Fx`] holds a signed 64-bit integer `raw`; the value it stands for is
//! `raw / 2^32`.  This gives a range of roughly ±2·10^9 with a resolution of
//! about 2.3·10^-10, which comfortably covers audio samples, envelope
//! amplitudes, frequencies in Hz and the other block-rate control values of
//! the engine.  Arithmetic saturates instead of wrapping, so a render pass
//! can never fail.

use vstd::prelude::*;

verus! {

/// Raw representation of the value 1.
pub const FX_ONE_RAW: i64 = 0x1_0000_0000;

/// Saturating conversion of an unbounded integer to the `i64` range.
pub open spec fn clip_i64(v: int) -> int {
    if v > i64::MAX {
        i64::MAX as int
    } else if v < i64::MIN {
        i64::MIN as int
    } else {
        v
    }
}

/// Division rounded toward zero, for a positive divisor.
pub open spec fn div_trunc(a: int, b: int) -> int
    recommends
        b > 0,
{
    if a >= 0 {
        a / b
    } else {
        -((-a) / b)
    }
}

/// Saturating fixed-point addition, on raw values.
pub open spec fn fx_add(a: int, b: int) -> int {
    clip_i64(a + b)
}

/// Saturating fixed-point subtraction, on raw values.
pub open spec fn fx_sub(a: int, b: int) -> int {
    clip_i64(a - b)
}

/// Saturating fixed-point multiplication, on raw values.
pub open spec fn fx_mul(a: int, b: int) -> int {
    clip_i64(div_trunc(a * b, FX_ONE_RAW as int))
}

/// Saturating fixed-point division, on raw values.
pub open spec fn fx_div(a: int, b: int) -> int {
    if b > 0 {
        clip_i64(div_trunc(a * FX_ONE_RAW, b))
    } else {
        clip_i64(div_trunc(-(a * FX_ONE_RAW), -b))
    }
}

/// Clamping to the unit interval, on raw values.
pub open spec fn fx_clamp01(a: int) -> int {
    if a < 0 {
        0int
    } else if a > FX_ONE_RAW {
        FX_ONE_RAW as int
    } else {
        a
    }
}

/// A fixed-point number: the value `raw / 2^32`.
#[derive(Clone, Copy, PartialEq, Eq, Structural, Debug)]
pub struct Fx {
    pub raw: i64,
}

impl Fx {
    /// The value 0.
    pub fn zero() -> (r: Fx)
        ensures
            r.raw == 0,
    {
        Fx { raw: 0 }
    }

    /// The value 1.
    pub fn one() -> (r: Fx)
        ensures
            r.raw == FX_ONE_RAW,
    {
        Fx { raw: FX_ONE_RAW }
    }

    /// Wraps a raw fixed-point integer.
    pub fn from_raw(raw: i64) -> (r: Fx)
        ensures
            r.raw == raw,
    {
        Fx { raw }
    }

    /// The integer `i` as a fixed-point value.
    pub fn from_int(i: i32) -> (r: Fx)
        ensures
            r.raw == i * FX_ONE_RAW,
    {
        Fx { raw: (i as i64) * FX_ONE_RAW }
    }

    /// The fraction `numer / denom` as a fixed-point value, rounded toward
    /// zero.
    pub fn from_frac(numer: i64, denom: i64) -> (r: Fx)
        requires
            denom > 0,
        ensures
            r.raw == clip_i64(div_trunc(numer * FX_ONE_RAW, denom as int)),
    {
        proof {
            lemma_i64_mul_bounds(numer as int, FX_ONE_RAW as int);
        }
        div_i128(numer as i128 * FX_ONE_RAW as i128, denom as i128)
    }

    /// Saturating addition.
    pub fn add(self, other: Fx) -> (r: Fx)
        ensures
            r.raw == clip_i64(self.raw + other.raw),
    {
        Fx { raw: clip_i128_exec(self.raw as i128 + other.raw as i128) }
    }

    /// Saturating subtraction.
    pub fn sub(self, other: Fx) -> (r: Fx)
        ensures
            r.raw == clip_i64(self.raw - other.raw),
    {
        Fx { raw: clip_i128_exec(self.raw as i128 - other.raw as i128) }
    }

    /// Negation; the minimum raw value saturates to the maximum.
    pub fn neg(self) -> (r: Fx)
        ensures
            r.raw == clip_i64(-self.raw),
    {
        if self.raw == i64::MIN {
            Fx { raw: i64::MAX }
        } else {
            Fx { raw: -self.raw }
        }
    }

    /// Saturating multiplication, rounded toward zero.
    pub fn mul(self, other: Fx) -> (r: Fx)
        ensures
            r.raw == clip_i64(div_trunc(self.raw * other.raw, FX_ONE_RAW as int)),
    {
        proof {
            lemma_i64_mul_bounds(self.raw as int, other.raw as int);
        }
        div_i128(self.raw as i128 * other.raw as i128, FX_ONE_RAW as i128)
    }

    /// Saturating division, rounded toward zero.
    pub fn div(self, other: Fx) -> (r: Fx)
        requires
            other.raw != 0,
        ensures
            r.raw == clip_i64(
                if other.raw > 0 {
                    div_trunc(self.raw * FX_ONE_RAW, other.raw as int)
                } else {
                    div_trunc(-(self.raw * FX_ONE_RAW), -other.raw as int)
                },
            ),
    {
        proof {
            lemma_i64_mul_bounds(self.raw as int, FX_ONE_RAW as int);
        }
        if other.raw > 0 {
            div_i128(self.raw as i128 * FX_ONE_RAW as i128, other.raw as i128)
        } else {
            div_i128(-(self.raw as i128 * FX_ONE_RAW as i128), -(other.raw as i128))
        }
    }

    /// Clamps the value to the interval [0, 1].
    pub fn clamp01(self) -> (r: Fx)
        ensures
            r.raw == if self.raw < 0 {
                0int
            } else if self.raw > FX_ONE_RAW {
                FX_ONE_RAW as int
            } else {
                self.raw as int
            },
    {
        if self.raw < 0 {
            Fx { raw: 0 }
        } else if self.raw > FX_ONE_RAW {
            Fx { raw: FX_ONE_RAW }
        } else {
            self
        }
    }

    /// Absolute value; the minimum raw value saturates to the maximum.
    pub fn abs(self) -> (r: Fx)
        ensures
            r.raw == clip_i64(
                if self.raw < 0 {
                    -self.raw as int
                } else {
                    self.raw as int
                },
            ),
    {
        if self.raw < 0 {
            self.neg()
        } else {
            self
        }
    }

    /// True iff the value is strictly less than `other`.
    pub fn lt(self, other: Fx) -> (r: bool)
        ensures
            r == (self.raw < other.raw),
    {
        self.raw < other.raw
    }

    /// True iff the value is less than or equal to `other`.
    pub fn le(self, other: Fx) -> (r: bool)
        ensures
            r == (self.raw <= other.raw),
    {
        self.raw <= other.raw
    }

    /// True iff the value is 0.
    pub fn is_zero(self) -> (r: bool)
        ensures
            r == (self.raw == 0),
    {
        self.raw == 0
    }
}

/// Bounds of a product of two `i64` factors.
pub(crate) proof fn lemma_i64_mul_bounds(a: int, b: int)
    requires
        i64::MIN <= a <= i64::MAX,
        i64::MIN <= b <= i64::MAX,
    ensures
        -0x4000_0000_0000_0000_0000_0000_0000_0000 < a * b,
        a * b <= 0x4000_0000_0000_0000_0000_0000_0000_0000,
{
    assert(-0x4000_0000_0000_0000_0000_0000_0000_0000 < a * b
        <= 0x4000_0000_0000_0000_0000_0000_0000_0000) by (nonlinear_arith)
        requires
            -0x8000_0000_0000_0000 <= a <= 0x7FFF_FFFF_FFFF_FFFF,
            -0x8000_0000_0000_0000 <= b <= 0x7FFF_FFFF_FFFF_FFFF,
    ;
}

/// Saturates a wide intermediate result to the `i64` range.
pub(crate) fn clip_i128_exec(v: i128) -> (r: i64)
    ensures
        r == clip_i64(v as int),
{
    if v > i64::MAX as i128 {
        i64::MAX
    } else if v < i64::MIN as i128 {
        i64::MIN
    } else {
        v as i64
    }
}

/// Divides a wide intermediate by a positive divisor, rounding toward zero
/// and saturating to the `i64` range.
pub(crate) fn div_i128(num: i128, den: i128) -> (r: Fx)
    requires
        0 < den < 0x8000_0000_0000_0000_0000_0000_0000_0000,
        -0x8000_0000_0000_0000_0000_0000_0000_0000 < num,
    ensures
        r.raw == clip_i64(div_trunc(num as int, den as int)),
{
    let dmag: u128 = den as u128;
    if num >= 0 {
        let q: u128 = num as u128 / dmag;
        if q > i64::MAX as u128 {
            Fx { raw: i64::MAX }
        } else {
            Fx { raw: q as i64 }
        }
    } else {
        let q: u128 = (-num) as u128 / dmag;
        if q > i64::MAX as u128 {
            Fx { raw: i64::MIN }
        } else {
            proof {
                assert(div_trunc(num as int, den as int) == -(((-num) as u128 / dmag) as int));
            }
            Fx { raw: -(q as i64) }
        }
    }
}

} // verus!
