//! Linear and logarithmic operations on pitches, frequencies and frequency
//! ratios.
//!
//! A [`Ratio`] is the factor between two frequencies, stored as its base-2
//! logarithm in units of 2^-52 octaves; a [`Pitch`] is a frequency in Hz,
//! stored the same way.  The logarithmic representation makes stretching and
//! deviation exact integer addition and subtraction, gives a total order for
//! free, and turns octave extraction into a floor division.  Conversions to
//! and from `f64` go through bit patterns (see [`crate::float_bits`]) and
//! the verified logarithm and exponential kernels.

use vstd::prelude::*;

use crate::float_bits::{decode_f64, encode_f64, encode_spec, pow2_u128, FloatClass};
use crate::fx::{clip_i64, div_trunc, Fx};
use crate::kernel::{exp2_frac, log2_bits, log2_frac, two_pow};

verus! {

/// One octave in raw units: 2^52.
pub const OCTAVE_RAW: i64 = 0x10_0000_0000_0000;

/// Raw threshold below which a ratio counts as negligible:
/// `log2(1.000001) · 2^52`, about a 500th of a cent.
pub const NEGLIGIBLE_RAW: i64 = 6497317599;

/// Number of doublings needed to normalize `x` to `[2^63, 2^64)`.
pub open spec fn norm_s(x: nat) -> nat
    decreases 0x1_0000_0000_0000_0000 - x,
{
    if x == 0 || x >= 0x8000_0000_0000_0000 {
        0
    } else {
        1 + norm_s(2 * x)
    }
}

/// The mantissa of `x` normalized to `[2^63, 2^64)`.
pub open spec fn norm_m(x: nat) -> nat
    decreases 0x1_0000_0000_0000_0000 - x,
{
    if x == 0 || x >= 0x8000_0000_0000_0000 {
        x
    } else {
        norm_m(2 * x)
    }
}

/// `log2(x)` in raw units (2^-52 octaves), truncated, for `1 <= x < 2^64`.
pub open spec fn log2_q52_of(x: nat) -> int {
    (63 - norm_s(x)) * OCTAVE_RAW + log2_bits(norm_m(x), 63) / 0x800
}

/// The octave part of a raw logarithm (a floor division by 2^52).
pub open spec fn floor_octaves(raw: int) -> int {
    raw / (OCTAVE_RAW as int)
}

/// The fractional part of a raw logarithm, widened to Q63.
pub open spec fn frac_q63(raw: int) -> int {
    (raw - floor_octaves(raw) * OCTAVE_RAW) * 0x800
}

/// The `f64` bit pattern that encodes the exponential of a raw logarithm.
pub open spec fn float_bits_of(raw: int) -> int {
    encode_spec(
        false,
        crate::kernel::exp2_of(frac_q63(raw) as nat) as u64,
        floor_octaves(raw),
    )
}

/// The raw logarithm stored for a normal `f64` bit pattern: the unbiased
/// exponent in whole octaves plus 52 fraction bits of the base-2 logarithm
/// of the 53-bit significand.
pub open spec fn float_log_normal(bits: u64) -> int {
    clip_i64(
        (crate::float_bits::bits_exp_field(bits) - 1023) * OCTAVE_RAW + log2_bits(
            ((crate::float_bits::bits_frac(bits) + 0x10_0000_0000_0000) * 0x800) as nat,
            63,
        ) / 0x800,
    )
}

/// Whether `e` is the exponent that normalizes the subnormal fraction of
/// `bits` into `[2^63, 2^64)`.
pub open spec fn subnormal_exp_ok(bits: u64, e: int) -> bool {
    &&& -1074 <= e <= -1012
    &&& 0x8000_0000_0000_0000 <= crate::float_bits::bits_frac(bits) * two_pow(
        (-1011 - e) as nat,
    ) < 0x1_0000_0000_0000_0000
}

/// The raw logarithm stored for a subnormal `f64` bit pattern whose
/// normalized exponent is `e`.
pub open spec fn float_log_subnormal_at(bits: u64, e: int) -> int {
    clip_i64(
        e * OCTAVE_RAW + log2_bits(
            (crate::float_bits::bits_frac(bits) * two_pow((-1011 - e) as nat)) as nat,
            63,
        ) / 0x800,
    )
}

/// The raw logarithm decoded from a normal `f64` count of units
/// (`per_octave` units make one octave): the 53-bit significand is scaled
/// to raw units, divided by the unit count, shifted by the unbiased
/// exponent and signed.
pub open spec fn units_log_normal(bits: u64, per_octave: int) -> int {
    clip_to_i64(
        signed(
            crate::float_bits::bits_neg(bits),
            scale_pow2(
                (((crate::float_bits::bits_frac(bits) + 0x10_0000_0000_0000) * 0x800)
                    * 0x10_0000_0000_0000 / per_octave) as nat,
                crate::float_bits::bits_exp_field(bits) - 1086,
            ),
        ),
    )
}

/// The witness relation for encoding a nonzero raw logarithm as a count of
/// units: `m` is the normalized mantissa of `|raw| · per_octave`, `s` its
/// normalization shift, and `bits` the truncated encoding.
pub open spec fn units_bits_witness(raw: int, per_octave: int, bits: u64, m: u64, s: u32) -> bool {
    let mag = (if raw < 0 {
        -raw
    } else {
        raw
    }) * per_octave;
    &&& 0x8000_0000_0000_0000 <= m
    &&& encode_spec(is_neg(raw), m, 75 - s) == bits
    &&& two_pow(s as nat) * mag >= 0x8000_0000_0000_0000_0000_0000_0000_0000
    &&& m == (two_pow(s as nat) * mag) / 0x1_0000_0000_0000_0000
}

/// The Q32.32 linear value of the exponential of a raw logarithm,
/// saturated.
pub open spec fn hz_fx_of(raw: int) -> int {
    clip_i64(
        scale_pow2(crate::kernel::exp2_of(frac_q63(raw) as nat), floor_octaves(raw) - 31),
    )
}

/// `log2(x)` in raw units, as executable code: normalize, then extract the
/// fraction bits.
pub fn log2_q52_u64(x: u64) -> (r: i64)
    requires
        x >= 1,
    ensures
        r == log2_q52_of(x as nat),
        0 <= r < 64 * OCTAVE_RAW,
{
    let mut m: u64 = x;
    let mut s: u32 = 0;
    proof {
        assert(two_pow(0) == 1);
        assert((x as nat) * two_pow(0) == x as nat) by (nonlinear_arith)
            requires
                two_pow(0) == 1,
        ;
    }
    while m < 0x8000_0000_0000_0000
        invariant
            1 <= m,
            s <= 63,
            norm_m(x as nat) == norm_m(m as nat),
            norm_s(x as nat) == norm_s(m as nat) + s,
            m as nat == (x as nat) * two_pow(s as nat),
        decreases 0x1_0000_0000_0000_0000 - m,
    {
        proof {
            lemma_norm_shift_bound(x as nat, s as nat, m as nat);
        }
        m = m * 2;
        s = s + 1;
    }
    let f = log2_frac(m);
    proof {
        assert(norm_s(m as nat) == 0);
        assert(norm_m(m as nat) == m);
    }
    (63 - s as i64) * OCTAVE_RAW + (f / 0x800) as i64
}

/// While normalizing, the shift count stays below 64 because the value
/// doubles each time and must stay below 2^64.
proof fn lemma_norm_shift_bound(x: nat, s: nat, m: nat)
    requires
        1 <= x,
        m == x * two_pow(s),
        m < 0x8000_0000_0000_0000,
    ensures
        s < 63,
        2 * m == x * two_pow((s + 1) as nat),
{
    assert(x * two_pow(s) >= two_pow(s)) by (nonlinear_arith)
        requires
            x >= 1,
            two_pow(s) >= 0,
    ;
    if s >= 63 {
        crate::kernel::lemma_two_pow_mono(63, s);
        crate::kernel::lemma_two_pow_63();
    }
    assert(x * two_pow((s + 1) as nat) == 2 * (x * two_pow(s))) by (nonlinear_arith)
        requires
            two_pow((s + 1) as nat) == 2 * two_pow(s),
    ;
}

/// `w · 2^k`, with a negative `k` dividing (truncating).
pub open spec fn scale_pow2(w: nat, k: int) -> int {
    if k >= 0 {
        (w * two_pow(k as nat)) as int
    } else {
        (w / two_pow((-k) as nat)) as int
    }
}

/// Computes `±(w · 2^k)` saturated to the `i64` range.
pub fn scale_pow2_to_i64(w: u128, k: i32, neg: bool) -> (r: i64)
    requires
        w < 0x8000_0000_0000_0000_0000_0000_0000_0000,
    ensures
        r == clip_i64(
            if neg {
                -scale_pow2(w as nat, k as int)
            } else {
                scale_pow2(w as nat, k as int)
            },
        ),
{
    let mag: u128 = if k >= 0 {
        let mut v: u128 = w;
        let mut j: i32 = k;
        let mut saturated = false;
        proof {
            assert(two_pow(0) == 1);
            assert((w as nat) * two_pow(0) == w as nat) by (nonlinear_arith)
                requires
                    two_pow(0) == 1,
            ;
        }
        while j > 0 && !saturated
            invariant
                0 <= j <= k,
                !saturated ==> scale_pow2(w as nat, k as int) == (v as nat) * two_pow(j as nat),
                saturated ==> scale_pow2(w as nat, k as int) > i64::MAX,
            decreases 2 * j + (if saturated { 0int } else { 1int }),
        {
            if v > i64::MAX as u128 {
                proof {
                    crate::kernel::lemma_two_pow_mono(0, j as nat);
                    assert((v as nat) * two_pow(j as nat) >= v) by (nonlinear_arith)
                        requires
                            two_pow(j as nat) >= 1,
                            v >= 0,
                    ;
                }
                saturated = true;
            } else {
                proof {
                    assert((v as nat) * two_pow(j as nat) == (2 * v as nat) * two_pow(
                        (j - 1) as nat,
                    )) by (nonlinear_arith)
                        requires
                            j >= 1,
                            two_pow(j as nat) == 2 * two_pow((j - 1) as nat),
                    ;
                }
                v = v * 2;
                j = j - 1;
            }
        }
        proof {
            if !saturated {
                assert(two_pow(0) == 1);
                assert((v as nat) * two_pow(0) == v as nat) by (nonlinear_arith)
                    requires
                        two_pow(0) == 1,
                ;
            }
        }
        if saturated {
            0x8000_0000_0000_0000u128
        } else {
            v
        }
    } else {
        let d: i64 = -(k as i64);
        if d >= 127 {
            proof {
                crate::kernel::lemma_two_pow_mono(127, d as nat);
                crate::float_bits::lemma_two_pow_127();
                vstd::arithmetic::div_mod::lemma_div_is_ordered_by_denominator(
                    w as int,
                    0x8000_0000_0000_0000_0000_0000_0000_0000,
                    two_pow(d as nat) as int,
                );
            }
            0
        } else {
            let divisor = pow2_u128(d as u32);
            proof {
                crate::kernel::lemma_two_pow_mono(0, d as nat);
            }
            w / divisor
        }
    };
    if neg {
        if mag > 0x8000_0000_0000_0000u128 {
            i64::MIN
        } else if mag == 0x8000_0000_0000_0000u128 {
            i64::MIN
        } else {
            -(mag as i64)
        }
    } else {
        if mag > i64::MAX as u128 {
            i64::MAX
        } else {
            mag as i64
        }
    }
}

/// Struct representing the relative distance between two pitches: the
/// base-2 logarithm of the frequency factor, in raw units of 2^-52 octaves.
#[derive(Clone, Copy, PartialEq, Eq, Structural, Debug, Hash)]
pub struct Ratio {
    pub raw: i64,
}

/// Stretching is addition of logarithms, saturated.
pub open spec fn stretch_spec(a: int, b: int) -> int {
    clip_i64(a + b)
}

/// Deviation is subtraction of logarithms, saturated.
pub open spec fn deviation_spec(a: int, b: int) -> int {
    clip_i64(a - b)
}

/// Repetition multiplies the logarithm, saturated.
pub open spec fn repeat_spec(a: int, n: int) -> int {
    clip_i64(a * n)
}

/// Equal division divides the logarithm, truncating toward zero.
pub open spec fn divide_spec(a: int, n: int) -> int {
    div_trunc(a, n)
}

impl Ratio {
    /// The ratio between the same frequency and itself: the factor 1.
    pub fn unison() -> (r: Ratio)
        ensures
            r.raw == 0,
    {
        Ratio { raw: 0 }
    }

    /// The frequency factor 2.
    pub fn octave() -> (r: Ratio)
        ensures
            r.raw == OCTAVE_RAW,
    {
        Ratio { raw: OCTAVE_RAW }
    }

    /// A whole number of octaves.
    pub fn from_octaves_int(n: i32) -> (r: Ratio)
        requires
            -2048 <= n <= 2047,
        ensures
            r.raw == n * OCTAVE_RAW,
    {
        Ratio { raw: (n as i64) * OCTAVE_RAW }
    }

    /// The exact ratio `numer / denom` of two whole numbers.
    pub fn from_fraction(numer: u64, denom: u64) -> (r: Ratio)
        requires
            numer >= 1,
            denom >= 1,
        ensures
            r.raw == log2_q52_of(numer as nat) - log2_q52_of(denom as nat),
    {
        let n = log2_q52_u64(numer);
        let d = log2_q52_u64(denom);
        Ratio { raw: n - d }
    }

    /// Decodes a linear factor from an `f64` bit pattern; `None` unless the
    /// value is finite and strictly positive.
    pub fn from_float_bits(bits: u64) -> (r: Option<Ratio>)
        ensures
            r is Some <==> (crate::float_bits::bits_exp_field(bits) < 0x7FF && !(
            crate::float_bits::bits_exp_field(bits) == 0 && crate::float_bits::bits_frac(bits)
                == 0) && !crate::float_bits::bits_neg(bits)),
            r matches Some(rr) ==> crate::float_bits::bits_exp_field(bits) > 0 ==> rr.raw
                == float_log_normal(bits),
            r matches Some(rr) ==> crate::float_bits::bits_exp_field(bits) == 0 ==> exists|e: int|
                #[trigger] subnormal_exp_ok(bits, e) && rr.raw == float_log_subnormal_at(bits, e),
    {
        let d = decode_f64(bits);
        match d.class {
            FloatClass::Finite => {
                if d.neg {
                    None
                } else {
                    let f = log2_frac(d.mant);
                    proof {
                        crate::fx::lemma_i64_mul_bounds(d.exp as int, OCTAVE_RAW as int);
                    }
                    let rr = Ratio {
                        raw: crate::fx::clip_i128_exec(
                            (d.exp as i128) * (OCTAVE_RAW as i128) + (f / 0x800) as i128,
                        ),
                    };
                    proof {
                        if crate::float_bits::bits_exp_field(bits) == 0 {
                            assert(subnormal_exp_ok(bits, d.exp as int));
                            assert(rr.raw == float_log_subnormal_at(bits, d.exp as int));
                        } else {
                            assert(rr.raw == float_log_normal(bits));
                        }
                    }
                    Some(rr)
                }
            },
            _ => None,
        }
    }

    /// Encodes the linear factor as an `f64` bit pattern, truncating.
    ///
    /// The result is the exponential of the stored logarithm: the integer
    /// part of the logarithm becomes the binary exponent and the fraction is
    /// inverted through the binary-search exponential, whose defining
    /// property appears in the postcondition.
    pub fn as_float_bits(self) -> (bits: u64)
        ensures
            bits == float_bits_of(self.raw as int),
    {
        let (e, frac) = floor_split(self.raw);
        let m = exp2_frac(frac * 0x800);
        encode_f64(false, m, e)
    }

    /// Stretches `self` by the provided `stretch`: multiplication of the
    /// factors, addition of the logarithms.  This reverses
    /// [`Ratio::deviation_from`].
    pub fn stretched_by(self, stretch: Ratio) -> (r: Ratio)
        ensures
            r.raw == stretch_spec(self.raw as int, stretch.raw as int),
    {
        Ratio { raw: crate::fx::clip_i128_exec(self.raw as i128 + stretch.raw as i128) }
    }

    /// The difference between `reference` and `self`: division of the
    /// factors, subtraction of the logarithms.  This reverses
    /// [`Ratio::stretched_by`].
    pub fn deviation_from(self, reference: Ratio) -> (r: Ratio)
        ensures
            r.raw == deviation_spec(self.raw as int, reference.raw as int),
    {
        Ratio { raw: crate::fx::clip_i128_exec(self.raw as i128 - reference.raw as i128) }
    }

    /// Applies `self` a whole number of times.  This reverses
    /// [`Ratio::divided_into_equal_steps`].
    pub fn repeated(self, num_repetitions: i32) -> (r: Ratio)
        ensures
            r.raw == repeat_spec(self.raw as int, num_repetitions as int),
    {
        proof {
            crate::fx::lemma_i64_mul_bounds(self.raw as int, num_repetitions as int);
        }
        Ratio { raw: crate::fx::clip_i128_exec(self.raw as i128 * num_repetitions as i128) }
    }

    /// Applies `self` a fractional number of times (the factor in Q32.32
    /// fixed point), as the pitch-bend composition needs.
    pub fn repeated_by(self, amount: Fx) -> (r: Ratio)
        ensures
            r.raw == clip_i64(div_trunc(self.raw * amount.raw, crate::fx::FX_ONE_RAW as int)),
    {
        proof {
            crate::fx::lemma_i64_mul_bounds(self.raw as int, amount.raw as int);
        }
        let wide: i128 = self.raw as i128 * amount.raw as i128;
        let f = crate::fx::div_i128(wide, crate::fx::FX_ONE_RAW as i128);
        Ratio { raw: f.raw }
    }

    /// The ratio divided into `num_steps` equal steps, truncating toward
    /// zero.  This reverses [`Ratio::repeated`].
    pub fn divided_into_equal_steps(self, num_steps: i32) -> (r: Ratio)
        requires
            num_steps > 0,
        ensures
            r.raw == divide_spec(self.raw as int, num_steps as int),
    {
        let f = crate::fx::div_i128(self.raw as i128, num_steps as i128);
        Ratio { raw: f.raw }
    }

    /// How many steps of size `step_size` fit into `self`, as a Q32.32
    /// fixed-point number.
    pub fn num_equal_steps_of_size(self, step_size: Ratio) -> (r: Fx)
        requires
            step_size.raw != 0,
        ensures
            r.raw == crate::fx::fx_div(self.raw as int, step_size.raw as int),
    {
        Fx::from_raw(self.raw).div(Fx::from_raw(step_size.raw))
    }

    /// The inverse factor: negation of the logarithm.
    pub fn inv(self) -> (r: Ratio)
        ensures
            r.raw == clip_i64(-self.raw as int),
    {
        if self.raw == i64::MIN {
            Ratio { raw: i64::MAX }
        } else {
            Ratio { raw: -self.raw }
        }
    }

    /// The factor folded above 1: the reciprocal is taken when the factor is
    /// below 1, which is the absolute value of the logarithm.
    pub fn abs(self) -> (r: Ratio)
        ensures
            r.raw == clip_i64(
                if self.raw < 0 {
                    -self.raw as int
                } else {
                    self.raw as int
                },
            ),
    {
        if self.raw < 0 {
            self.inv()
        } else {
            self
        }
    }

    /// Whether the ratio is within about a 500th of a cent of a unison.
    pub fn is_negligible(self) -> (r: bool)
        ensures
            r == (-NEGLIGIBLE_RAW < self.raw < NEGLIGIBLE_RAW),
    {
        -NEGLIGIBLE_RAW < self.raw && self.raw < NEGLIGIBLE_RAW
    }

    /// Total order on ratios.  The logarithmic representation makes this a
    /// plain integer comparison.
    pub fn total_cmp(&self, other: &Ratio) -> (r: i8)
        ensures
            r == -1 <==> self.raw < other.raw,
            r == 1 <==> self.raw > other.raw,
            r == 0 <==> self.raw == other.raw,
    {
        if self.raw < other.raw {
            -1
        } else if self.raw > other.raw {
            1
        } else {
            0
        }
    }

    /// The whole number of octaves below the factor.
    pub fn octaves_floor(self) -> (r: i32)
        ensures
            r == floor_octaves(self.raw as int),
            -2048 <= r <= 2047,
    {
        let (e, _) = floor_split(self.raw);
        e
    }

    /// The relative distance between two pitches.
    pub fn between_pitches(pitch_a: Pitch, pitch_b: Pitch) -> (r: Ratio)
        ensures
            r.raw == deviation_spec(pitch_b.raw as int, pitch_a.raw as int),
    {
        Ratio { raw: crate::fx::clip_i128_exec(pitch_b.raw as i128 - pitch_a.raw as i128) }
    }
}

impl Default for Ratio {
    /// The default ratio represents equivalence of two frequencies: the
    /// factor 1, whose logarithm is 0.
    fn default() -> (r: Ratio)
        ensures
            r.raw == 0,
    {
        Ratio { raw: 0 }
    }
}

/// The saturated Q32.32 value of `2^x` for a Q32.32 exponent `x`.
pub open spec fn exp2_fx_of(xraw: int) -> int {
    let e = xraw / 0x1_0000_0000;
    let frac = xraw - e * 0x1_0000_0000;
    clip_i64(scale_pow2(crate::kernel::exp2_of((frac * 0x8000_0000) as nat), e - 31))
}

/// Computes `2^x` for a Q32.32 exponent, saturating.  The exponent must
/// stay below 2^30 in magnitude, which covers every control value the
/// engine produces.
pub fn exp2_fx(x: Fx) -> (r: Fx)
    requires
        -0x4000_0000_0000_0000 < x.raw < 0x4000_0000_0000_0000,
    ensures
        r.raw == exp2_fx_of(x.raw as int),
{
    let (e, frac) = floor_div_rem(x.raw, 0x1_0000_0000);
    let m = crate::kernel::exp2_frac(frac * 0x8000_0000);
    Fx { raw: scale_pow2_to_i64(m as u128, (e - 31) as i32, false) }
}

/// Floor division with nonnegative remainder, for a positive divisor.
fn floor_div_rem(raw: i64, d: i64) -> (r: (i64, u64))
    requires
        2 <= d,
    ensures
        r.0 == (raw as int) / (d as int),
        r.1 == raw - ((raw as int) / (d as int)) * d,
        0 <= r.1 < d,
        -(0x8000_0000_0000_0000int / (d as int)) - 1 <= r.0 <= 0x7FFF_FFFF_FFFF_FFFFint / (
        d as int),
    {
    if raw >= 0 {
        let q = ((raw as u64) / (d as u64)) as i64;
        let m = ((raw as u64) % (d as u64)) as i64;
        proof {
            vstd::arithmetic::div_mod::lemma_div_is_ordered(raw as int, i64::MAX as int, d as int);
            vstd::arithmetic::div_mod::lemma_fundamental_div_mod(raw as int, d as int);
        }
        (q, m as u64)
    } else {
        let mag: u128 = (-(raw as i128)) as u128;
        let qq: u128 = mag / (d as u128);
        let mm: u128 = mag % (d as u128);
        proof {
            vstd::arithmetic::div_mod::lemma_div_is_ordered(
                mag as int,
                0x8000_0000_0000_0000,
                d as int,
            );
            vstd::arithmetic::div_mod::lemma_div_is_ordered_by_denominator(
                0x8000_0000_0000_0000,
                2,
                d as int,
            );
            vstd::arithmetic::div_mod::lemma_div_pos_is_pos(mag as int, d as int);
        }
        let q: i64 = qq as i64;
        let m: i64 = mm as i64;
        proof {
            lemma_floor_div_neg(raw as int, d as int, q as int, m as int);
        }
        if m == 0 {
            (-q, 0)
        } else {
            (-q - 1, (d - m) as u64)
        }
    }
}

/// Floor division of a negative value, through the Euclidean quotient and
/// remainder of its magnitude.
pub(crate) proof fn lemma_floor_div_neg(raw: int, d: int, q: int, m: int)
    requires
        raw < 0,
        raw >= i64::MIN,
        d >= 2,
        q == (-raw) / d,
        m == (-raw) % d,
    ensures
        m == 0 ==> raw / d == -q && raw - (-q) * d == 0,
        m != 0 ==> raw / d == -q - 1 && raw - (-q - 1) * d == d - m,
        0 <= m < d,
        q <= 0x8000_0000_0000_0000int / d,
{
    vstd::arithmetic::div_mod::lemma_fundamental_div_mod(-raw, d);
    assert(-raw == d * q + m);
    if m == 0 {
        assert(raw == d * (-q) + 0) by (nonlinear_arith)
            requires
                -raw == d * q,
        ;
        vstd::arithmetic::div_mod::lemma_fundamental_div_mod_converse(raw, d, -q, 0);
    } else {
        assert(raw == d * (-q - 1) + (d - m)) by (nonlinear_arith)
            requires
                -raw == d * q + m,
        ;
        vstd::arithmetic::div_mod::lemma_fundamental_div_mod_converse(raw, d, -q - 1, d - m);
    }
    vstd::arithmetic::div_mod::lemma_div_is_ordered(-raw, 0x8000_0000_0000_0000, d);
}

/// Splits a raw logarithm into its floor octave count and nonnegative
/// fraction (in raw units below one octave).
fn floor_split(raw: i64) -> (r: (i32, u64))
    ensures
        r.0 == floor_octaves(raw as int),
        r.1 == raw - floor_octaves(raw as int) * OCTAVE_RAW,
        0 <= r.1 < OCTAVE_RAW,
        -2048 <= r.0 <= 2047,
{
    if raw >= 0 {
        let q = raw / OCTAVE_RAW;
        let m = raw % OCTAVE_RAW;
        ((q as i32), m as u64)
    } else {
        let mag: i128 = -(raw as i128);
        let q = (mag / (OCTAVE_RAW as i128)) as i64;
        let m = (mag % (OCTAVE_RAW as i128)) as i64;
        proof {
            lemma_floor_split_neg(raw as int, q as int, m as int);
        }
        if m == 0 {
            ((-q) as i32, 0)
        } else {
            ((-q - 1) as i32, (OCTAVE_RAW - m) as u64)
        }
    }
}

/// Floor division of a negative value, phrased through the Euclidean
/// quotient and remainder of its magnitude.
proof fn lemma_floor_split_neg(raw: int, q: int, m: int)
    requires
        raw < 0,
        raw >= i64::MIN,
        q == (-raw) / (OCTAVE_RAW as int),
        m == (-raw) % (OCTAVE_RAW as int),
    ensures
        m == 0 ==> raw / (OCTAVE_RAW as int) == -q && raw - (-q) * OCTAVE_RAW == 0,
        m != 0 ==> raw / (OCTAVE_RAW as int) == -q - 1 && raw - (-q - 1) * OCTAVE_RAW == OCTAVE_RAW
            - m,
        0 <= m < OCTAVE_RAW,
        q <= 2048,
{
    let d = OCTAVE_RAW as int;
    vstd::arithmetic::div_mod::lemma_fundamental_div_mod(-raw, d);
    assert(-raw == d * q + m);
    if m == 0 {
        assert(raw == d * (-q) + 0) by (nonlinear_arith)
            requires
                -raw == d * q,
        ;
        vstd::arithmetic::div_mod::lemma_fundamental_div_mod_converse(raw, d, -q, 0);
    } else {
        assert(raw == d * (-q - 1) + (d - m)) by (nonlinear_arith)
            requires
                -raw == d * q + m,
        ;
        vstd::arithmetic::div_mod::lemma_fundamental_div_mod_converse(raw, d, -q - 1, d - m);
    }
    if q > 2048 {
        assert(d * q + m > -i64::MIN) by (nonlinear_arith)
            requires
                q > 2048,
                m >= 0,
                d == 0x10_0000_0000_0000,
        ;
    }
}

/// Struct representing the frequency of a pitch, stored as the base-2
/// logarithm of the frequency in Hz, in raw units of 2^-52 octaves.
#[derive(Clone, Copy, PartialEq, Eq, Structural, Debug, Hash)]
pub struct Pitch {
    pub raw: i64,
}

impl Pitch {
    /// The pitch of a whole frequency in Hz.
    pub fn from_hz_u32(hz: u32) -> (r: Pitch)
        requires
            hz >= 1,
        ensures
            r.raw == log2_q52_of(hz as nat),
    {
        Pitch { raw: log2_q52_u64(hz as u64) }
    }

    /// Decodes a frequency from an `f64` bit pattern; `None` unless the
    /// value is finite and strictly positive.
    pub fn from_hz_bits(bits: u64) -> (r: Option<Pitch>)
        ensures
            r is Some <==> (crate::float_bits::bits_exp_field(bits) < 0x7FF && !(
            crate::float_bits::bits_exp_field(bits) == 0 && crate::float_bits::bits_frac(bits)
                == 0) && !crate::float_bits::bits_neg(bits)),
            r matches Some(rr) ==> crate::float_bits::bits_exp_field(bits) > 0 ==> rr.raw
                == float_log_normal(bits),
            r matches Some(rr) ==> crate::float_bits::bits_exp_field(bits) == 0 ==> exists|e: int|
                #[trigger] subnormal_exp_ok(bits, e) && rr.raw == float_log_subnormal_at(bits, e),
    {
        match Ratio::from_float_bits(bits) {
            Some(r) => Some(Pitch { raw: r.raw }),
            None => None,
        }
    }

    /// Encodes the frequency in Hz as an `f64` bit pattern, truncating.
    pub fn as_hz_bits(self) -> (bits: u64)
        ensures
            bits == float_bits_of(self.raw as int),
    {
        Ratio { raw: self.raw }.as_float_bits()
    }

    /// The frequency in Hz as a Q32.32 fixed-point number, for the sample
    /// generators; saturates on over- or underflow.
    pub fn as_hz_fx(self) -> (r: Fx)
        ensures
            r.raw == hz_fx_of(self.raw as int),
    {
        let (e, frac) = floor_split(self.raw);
        let m = exp2_frac(frac * 0x800);
        Fx { raw: scale_pow2_to_i64(m as u128, e - 31, false) }
    }

    /// Raises the pitch by a ratio.
    pub fn mul_ratio(self, rhs: Ratio) -> (r: Pitch)
        ensures
            r.raw == stretch_spec(self.raw as int, rhs.raw as int),
    {
        Pitch { raw: crate::fx::clip_i128_exec(self.raw as i128 + rhs.raw as i128) }
    }

    /// Lowers the pitch by a ratio.
    pub fn div_ratio(self, rhs: Ratio) -> (r: Pitch)
        ensures
            r.raw == deviation_spec(self.raw as int, rhs.raw as int),
    {
        Pitch { raw: crate::fx::clip_i128_exec(self.raw as i128 - rhs.raw as i128) }
    }
}

/// Number of doublings needed to normalize a wide value to
/// `[2^127, 2^128)`.
pub open spec fn norm_s_128(x: nat) -> nat
    decreases 0x1_0000_0000_0000_0000_0000_0000_0000_0000 - x,
{
    if x == 0 || x >= 0x8000_0000_0000_0000_0000_0000_0000_0000 {
        0
    } else {
        1 + norm_s_128(2 * x)
    }
}

/// The normalization property of `norm_s_128`.
pub proof fn lemma_norm_s_128_char(x: nat)
    requires
        1 <= x < 0x8000_0000_0000_0000_0000_0000_0000_0000,
    ensures
        0x8000_0000_0000_0000_0000_0000_0000_0000 <= x * two_pow(norm_s_128(x))
            < 0x1_0000_0000_0000_0000_0000_0000_0000_0000,
    decreases 0x1_0000_0000_0000_0000_0000_0000_0000_0000 - x,
{
    if x >= 0x8000_0000_0000_0000_0000_0000_0000_0000 {
    } else if 2 * x >= 0x8000_0000_0000_0000_0000_0000_0000_0000 {
        assert(norm_s_128(2 * x) == 0);
        assert(two_pow(0) == 1);
        assert(two_pow(1) == 2);
        assert(x * two_pow(1) == 2 * x) by (nonlinear_arith)
            requires
                two_pow(1) == 2,
        ;
    } else {
        lemma_norm_s_128_char(2 * x);
        assert(x * two_pow(1 + norm_s_128(2 * x)) == (2 * x) * two_pow(norm_s_128(2 * x)))
            by (nonlinear_arith)
            requires
                two_pow(1 + norm_s_128(2 * x)) == 2 * two_pow(norm_s_128(2 * x)),
        ;
    }
}

/// Only one shift lands a value in `[2^127, 2^128)`.
pub proof fn lemma_norm_shift_unique_128(x: nat, a: nat, b: nat)
    requires
        1 <= x,
        0x8000_0000_0000_0000_0000_0000_0000_0000 <= x * two_pow(a)
            < 0x1_0000_0000_0000_0000_0000_0000_0000_0000,
        0x8000_0000_0000_0000_0000_0000_0000_0000 <= x * two_pow(b)
            < 0x1_0000_0000_0000_0000_0000_0000_0000_0000,
    ensures
        a == b,
{
    if a < b {
        crate::kernel::lemma_two_pow_mono(a + 1, b);
        assert(two_pow(a + 1) == 2 * two_pow(a));
        assert(x * two_pow(b) >= x * two_pow(a + 1)) by (nonlinear_arith)
            requires
                x >= 1,
                two_pow(b) >= two_pow(a + 1),
        ;
        assert(x * two_pow(a + 1) == 2 * (x * two_pow(a))) by (nonlinear_arith)
            requires
                two_pow(a + 1) == 2 * two_pow(a),
        ;
    } else if b < a {
        crate::kernel::lemma_two_pow_mono(b + 1, a);
        assert(two_pow(b + 1) == 2 * two_pow(b));
        assert(x * two_pow(a) >= x * two_pow(b + 1)) by (nonlinear_arith)
            requires
                x >= 1,
                two_pow(a) >= two_pow(b + 1),
        ;
        assert(x * two_pow(b + 1) == 2 * (x * two_pow(b))) by (nonlinear_arith)
            requires
                two_pow(b + 1) == 2 * two_pow(b),
        ;
    }
}

/// Normalizes a wide value to a mantissa in `[2^63, 2^64)`: the returned
/// mantissa is the top 64 bits of `v` shifted left `s` places.
pub(crate) fn norm_u128(v: u128) -> (r: (u64, u32))
    requires
        1 <= v < 0x8000_0000_0000_0000_0000_0000_0000_0000,
    ensures
        0x8000_0000_0000_0000 <= r.0,
        r.1 <= 127,
        0x8000_0000_0000_0000_0000_0000_0000_0000 <= (v as nat) * two_pow(r.1 as nat)
            < 0x1_0000_0000_0000_0000_0000_0000_0000_0000_0000_0000,
        r.0 == ((v as nat) * two_pow(r.1 as nat)) / 0x1_0000_0000_0000_0000,
{
    let mut w: u128 = v;
    let mut s: u32 = 0;
    proof {
        assert(two_pow(0) == 1);
        assert((v as nat) * two_pow(0) == v as nat) by (nonlinear_arith)
            requires
                two_pow(0) == 1,
        ;
    }
    while w < 0x8000_0000_0000_0000_0000_0000_0000_0000u128
        invariant
            1 <= w,
            s <= 127,
            w as nat == (v as nat) * two_pow(s as nat),
        decreases 0x1_0000_0000_0000_0000_0000_0000_0000_0000_0000_0000 - w,
    {
        proof {
            lemma_norm_shift_bound_u128(v as nat, s as nat, w as nat);
        }
        w = w * 2;
        s = s + 1;
    }
    let m = (w / 0x1_0000_0000_0000_0000u128) as u64;
    (m, s)
}

/// While normalizing a wide value, the shift count stays below 128.
proof fn lemma_norm_shift_bound_u128(x: nat, s: nat, m: nat)
    requires
        1 <= x,
        m == x * two_pow(s),
        m < 0x8000_0000_0000_0000_0000_0000_0000_0000,
    ensures
        s < 127,
        2 * m == x * two_pow((s + 1) as nat),
{
    assert(x * two_pow(s) >= two_pow(s)) by (nonlinear_arith)
        requires
            x >= 1,
            two_pow(s) >= 0,
    ;
    if s >= 127 {
        crate::kernel::lemma_two_pow_mono(127, s);
        crate::float_bits::lemma_two_pow_127();
    }
    assert(x * two_pow((s + 1) as nat) == 2 * (x * two_pow(s))) by (nonlinear_arith)
        requires
            two_pow((s + 1) as nat) == 2 * two_pow(s),
    ;
}

impl Ratio {
    /// Decodes a count of logarithmic units (cents, semitones or octaves)
    /// from an `f64` bit pattern; `None` for an infinity or NaN.
    fn from_units_bits(bits: u64, per_octave: u64) -> (r: Option<Ratio>)
        requires
            1 <= per_octave <= 1200,
        ensures
            r is Some <==> crate::float_bits::bits_exp_field(bits) < 0x7FF,
            (crate::float_bits::bits_exp_field(bits) == 0 && crate::float_bits::bits_frac(bits)
                == 0) ==> r == Some(Ratio { raw: 0i64 }),
            0 < crate::float_bits::bits_exp_field(bits) < 0x7FF ==> (r matches Some(rt)
                && rt.raw == units_log_normal(bits, per_octave as int)),
    {
        let d = decode_f64(bits);
        match d.class {
            FloatClass::Zero => Some(Ratio { raw: 0 }),
            FloatClass::Infinite => None,
            FloatClass::Nan => None,
            FloatClass::Finite => {
                let w: u128 = (d.mant as u128) * 0x10_0000_0000_0000u128 / (per_octave as u128);
                let raw = scale_pow2_to_i64(w, d.exp - 63, d.neg);
                Some(Ratio { raw })
            },
        }
    }

    /// Encodes the logarithm as a count of units (cents, semitones or
    /// octaves) in an `f64` bit pattern, truncating.
    fn as_units_bits(self, per_octave: u64) -> (bits: u64)
        requires
            1 <= per_octave <= 1200,
        ensures
            self.raw == 0 ==> bits == 0,
            self.raw != 0 ==> exists|m: u64, s: u32| #[trigger] units_bits_witness(
                self.raw as int,
                per_octave as int,
                bits,
                m,
                s,
            ),
    {
        if self.raw == 0 {
            0
        } else {
            let neg = self.raw < 0;
            let mag_raw: u128 = if self.raw < 0 {
                (-(self.raw as i128)) as u128
            } else {
                self.raw as u128
            };
            proof {
                crate::kernel::lemma_mul_le(
                    mag_raw as int,
                    per_octave as int,
                    0x8000_0000_0000_0000,
                    1200,
                );
                assert(mag_raw as int * (per_octave as int) >= 1) by (nonlinear_arith)
                    requires
                        mag_raw >= 1,
                        per_octave >= 1,
                ;
            }
            let mag: u128 = mag_raw * per_octave as u128;
            let (m, s) = norm_u128(mag);
            proof {
                assert((mag as nat) * two_pow(s as nat) == two_pow(s as nat) * (mag as nat))
                    by (nonlinear_arith);
            }
            let bits_out = encode_f64(neg, m, 127 - s as i32 - 52);
            proof {
                assert(neg == is_neg(self.raw as int));
                assert(encode_spec(is_neg(self.raw as int), m, 75 - (s as int)) == bits_out);
                assert((mag_raw as int) * (per_octave as int) == (if self.raw < 0 {
                    -self.raw as int
                } else {
                    self.raw as int
                }) * (per_octave as int));
                assert(units_bits_witness(self.raw as int, per_octave as int, bits_out, m, s));
            }
            bits_out
        }
    }

    /// Decodes a cents count from an `f64` bit pattern.
    pub fn from_cents_bits(bits: u64) -> (r: Option<Ratio>)
        ensures
            r is Some <==> crate::float_bits::bits_exp_field(bits) < 0x7FF,
            (crate::float_bits::bits_exp_field(bits) == 0 && crate::float_bits::bits_frac(bits)
                == 0) ==> r == Some(Ratio { raw: 0i64 }),
            0 < crate::float_bits::bits_exp_field(bits) < 0x7FF ==> (r matches Some(rt)
                && rt.raw == units_log_normal(bits, 1200)),
    {
        Self::from_units_bits(bits, 1200)
    }

    /// Decodes a semitones count from an `f64` bit pattern.
    pub fn from_semitones_bits(bits: u64) -> (r: Option<Ratio>)
        ensures
            r is Some <==> crate::float_bits::bits_exp_field(bits) < 0x7FF,
            (crate::float_bits::bits_exp_field(bits) == 0 && crate::float_bits::bits_frac(bits)
                == 0) ==> r == Some(Ratio { raw: 0i64 }),
            0 < crate::float_bits::bits_exp_field(bits) < 0x7FF ==> (r matches Some(rt)
                && rt.raw == units_log_normal(bits, 12)),
    {
        Self::from_units_bits(bits, 12)
    }

    /// Decodes an octaves count from an `f64` bit pattern.
    pub fn from_octaves_bits(bits: u64) -> (r: Option<Ratio>)
        ensures
            r is Some <==> crate::float_bits::bits_exp_field(bits) < 0x7FF,
            (crate::float_bits::bits_exp_field(bits) == 0 && crate::float_bits::bits_frac(bits)
                == 0) ==> r == Some(Ratio { raw: 0i64 }),
            0 < crate::float_bits::bits_exp_field(bits) < 0x7FF ==> (r matches Some(rt)
                && rt.raw == units_log_normal(bits, 1)),
    {
        Self::from_units_bits(bits, 1)
    }

    /// Encodes the logarithm in cents as an `f64` bit pattern.
    pub fn as_cents_bits(self) -> (bits: u64)
        ensures
            self.raw == 0 ==> bits == 0,
            self.raw != 0 ==> exists|m: u64, s: u32| #[trigger] units_bits_witness(
                self.raw as int,
                1200,
                bits,
                m,
                s,
            ),
    {
        self.as_units_bits(1200)
    }

    /// Encodes the logarithm in semitones as an `f64` bit pattern.
    pub fn as_semitones_bits(self) -> (bits: u64)
        ensures
            self.raw == 0 ==> bits == 0,
            self.raw != 0 ==> exists|m: u64, s: u32| #[trigger] units_bits_witness(
                self.raw as int,
                12,
                bits,
                m,
                s,
            ),
    {
        self.as_units_bits(12)
    }

    /// Encodes the logarithm in octaves as an `f64` bit pattern.
    pub fn as_octaves_bits(self) -> (bits: u64)
        ensures
            self.raw == 0 ==> bits == 0,
            self.raw != 0 ==> exists|m: u64, s: u32| #[trigger] units_bits_witness(
                self.raw as int,
                1,
                bits,
                m,
                s,
            ),
    {
        self.as_units_bits(1)
    }

    /// Finds a rational approximation of the ratio, normalized to one
    /// octave, whose numerator and denominator stay within the odd limit.
    pub fn nearest_fraction(self, odd_limit: u16) -> (r: NearestFraction)
        ensures
            r.num_octaves == floor_octaves(self.raw as int),
            odd_limit == 0 ==> r.numer == 0 && r.denom == 0,
            odd_limit >= 1 ==> {
                &&& 1 <= r.numer
                &&& 1 <= r.denom
                &&& crate::math::odd_part(r.numer as nat) <= odd_limit
                &&& crate::math::odd_part(r.denom as nat) <= odd_limit
                &&& r.deviation.raw == (self.raw as int - floor_octaves(self.raw as int)
                    * OCTAVE_RAW) - (log2_q52_of(r.numer as nat) - log2_q52_of(r.denom as nat))
                &&& abs_raw(r.deviation.raw as int) <= self.raw as int - floor_octaves(
                    self.raw as int,
                ) * OCTAVE_RAW
                &&& abs_raw(r.deviation.raw as int) <= OCTAVE_RAW - (self.raw as int
                    - floor_octaves(self.raw as int) * OCTAVE_RAW)
            },
    {
        NearestFraction::for_ratio(self, odd_limit)
    }
}

/// The magnitude of a raw logarithm.
pub open spec fn abs_raw(v: int) -> int {
    if v < 0 {
        -v
    } else {
        v
    }
}

/// `log2_bits` of an exact power of two is zero: squaring `2^63` gives
/// `2^126`, which normalizes back to `2^63` with a zero bit each step.
proof fn lemma_log2_bits_half_pow(n: nat)
    ensures
        log2_bits(0x8000_0000_0000_0000, n) == 0,
    decreases n,
{
    if n > 0 {
        lemma_log2_bits_half_pow((n - 1) as nat);
    }
}

/// Normalizing the power `2^k` shifts it up to `2^63` in `63 - k` steps.
proof fn lemma_norm_pow2_shape(k: nat)
    requires
        k <= 63,
    ensures
        norm_s(two_pow(k)) == 63 - k,
        norm_m(two_pow(k)) == 0x8000_0000_0000_0000,
    decreases 63 - k,
{
    crate::kernel::lemma_two_pow_63();
    if k == 63 {
    } else {
        lemma_norm_pow2_shape(k + 1);
        crate::kernel::lemma_two_pow_mono(k + 1, 63);
        crate::kernel::lemma_two_pow_mono(0, k);
        assert(two_pow(k + 1) == 2 * two_pow(k));
    }
}

/// The stored logarithms of the octave endpoints: `log2(1)` is zero and
/// `log2(2)` is one octave.
proof fn lemma_log2_q52_endpoints()
    ensures
        log2_q52_of(1) == 0,
        log2_q52_of(2) == OCTAVE_RAW,
{
    lemma_norm_pow2_shape(0);
    lemma_norm_pow2_shape(1);
    assert(two_pow(0) == 1);
    assert(two_pow(1) == 2);
    lemma_log2_bits_half_pow(63);
}

/// Whether a raw logarithm is negative.
pub open spec fn is_neg(raw: int) -> bool {
    raw < 0
}

/// The sign applied to a magnitude.
pub open spec fn signed(neg: bool, v: int) -> int {
    if neg {
        -v
    } else {
        v
    }
}

/// Saturation to the `i64` range, under a contract-friendly name.
pub open spec fn clip_to_i64(v: int) -> int {
    clip_i64(v)
}

/// An odd-limit nearest-fraction approximation of a [`Ratio`].
#[derive(Clone, Copy, PartialEq, Eq, Structural, Debug)]
pub struct NearestFraction {
    /// The numerator of the approximation.
    pub numer: u16,
    /// The denominator of the approximation.
    pub denom: u16,
    /// The deviation of the target value from the approximation.
    pub deviation: Ratio,
    /// The number of octaves removed to normalize the target into one
    /// octave.
    pub num_octaves: i32,
}

impl NearestFraction {
    /// Walks the Stern-Brocot tree toward the octave-normalized target,
    /// keeping the mediant with admissible odd parts that deviates least.
    fn for_ratio(ratio: Ratio, odd_limit: u16) -> (r: NearestFraction)
        ensures
            r.num_octaves == floor_octaves(ratio.raw as int),
            odd_limit == 0 ==> r.numer == 0 && r.denom == 0,
            odd_limit >= 1 ==> {
                &&& 1 <= r.numer
                &&& 1 <= r.denom
                &&& crate::math::odd_part(r.numer as nat) <= odd_limit
                &&& crate::math::odd_part(r.denom as nat) <= odd_limit
                &&& r.deviation.raw == (ratio.raw as int - floor_octaves(ratio.raw as int)
                    * OCTAVE_RAW) - (log2_q52_of(r.numer as nat) - log2_q52_of(r.denom as nat))
                &&& abs_raw(r.deviation.raw as int) <= ratio.raw as int - floor_octaves(
                    ratio.raw as int,
                ) * OCTAVE_RAW
                &&& abs_raw(r.deviation.raw as int) <= OCTAVE_RAW - (ratio.raw as int
                    - floor_octaves(ratio.raw as int) * OCTAVE_RAW)
            },
    {
        let (num_octaves, frac) = floor_split(ratio.raw);
        let target: i64 = frac as i64;

        let mut left: (u16, u16) = (0, 1);
        let mut right: (u16, u16) = (1, 0);
        let mut best: (u16, u16) = (0, 0);
        let mut best_dev: i64 = i64::MAX;
        let mut found = false;

        if odd_limit >= 1 {
            let lg_one = log2_q52_u64(1);
            best = (1, 1);
            best_dev = target - (lg_one - lg_one);
            found = true;
            proof {
                reveal_with_fuel(crate::math::odd_part, 2);
            }
        }

        loop
            invariant
                0 <= target < OCTAVE_RAW,
                1 <= left.1,
                1 <= right.0,
                found <==> odd_limit >= 1,
                found ==> {
                    &&& 1 <= best.0
                    &&& 1 <= best.1
                    &&& crate::math::odd_part(best.0 as nat) <= odd_limit
                    &&& crate::math::odd_part(best.1 as nat) <= odd_limit
                    &&& best_dev == target - (log2_q52_of(best.0 as nat) - log2_q52_of(
                        best.1 as nat,
                    ))
                },
                found ==> abs_raw(best_dev as int) <= target,
                found ==> (abs_raw(best_dev as int) <= OCTAVE_RAW - target || ((left == (
                    0u16,
                    1u16,
                ) || left == (1u16, 1u16)) && right == (1u16, 0u16) && best_dev == target)),
                !found ==> best.0 == 0 && best.1 == 0,
            ensures
                found <==> odd_limit >= 1,
                found ==> {
                    &&& 1 <= best.0
                    &&& 1 <= best.1
                    &&& crate::math::odd_part(best.0 as nat) <= odd_limit
                    &&& crate::math::odd_part(best.1 as nat) <= odd_limit
                    &&& best_dev == target - (log2_q52_of(best.0 as nat) - log2_q52_of(
                        best.1 as nat,
                    ))
                },
                found ==> abs_raw(best_dev as int) <= target,
                found ==> abs_raw(best_dev as int) <= OCTAVE_RAW - target,
                !found ==> best.0 == 0 && best.1 == 0,
            decreases 262144 - left.0 - left.1 - right.0 - right.1,
        {
            let m0 = match left.0.checked_add(right.0) {
                Some(v) => v,
                None => { break },
            };
            let m1 = match left.1.checked_add(right.1) {
                Some(v) => v,
                None => { break },
            };

            let odd_factors_numer = crate::math::odd_factors_u16(m0);
            let odd_factors_denom = crate::math::odd_factors_u16(m1);

            proof {
                lemma_odd_part_positive(m0 as nat);
                lemma_odd_part_positive(m1 as nat);
                reveal_with_fuel(crate::math::odd_part, 3);
                lemma_log2_q52_endpoints();
            }
            if odd_factors_numer > odd_limit && odd_factors_denom > odd_limit {
                break ;
            }
            let mid_log: i64 = log2_q52_u64(m0 as u64) - log2_q52_u64(m1 as u64);

            if odd_factors_numer <= odd_limit && odd_factors_denom <= odd_limit {
                let mid_dev: i64 = target - mid_log;
                let mid_abs: i64 = if mid_dev < 0 {
                    -mid_dev
                } else {
                    mid_dev
                };
                let best_abs: i64 = if best_dev == i64::MIN {
                    i64::MAX
                } else if best_dev < 0 {
                    -best_dev
                } else {
                    best_dev
                };
                if mid_abs < best_abs {
                    best = (m0, m1);
                    best_dev = mid_dev;
                    found = true;
                }
            }

            if target < mid_log {
                right = (m0, m1);
            } else if target > mid_log {
                left = (m0, m1);
            } else {
                break ;
            }
        }

        NearestFraction { numer: best.0, denom: best.1, deviation: Ratio { raw: best_dev }, num_octaves }
    }
}

/// The deviation of a nearest fraction in whole cents, rounded to the
/// nearest integer with ties away from zero.
pub open spec fn cents_rounded(raw: int) -> int {
    let mag = if raw < 0 {
        -raw
    } else {
        raw
    };
    let r = (mag * 1200 + 0x8_0000_0000_0000) / 0x10_0000_0000_0000;
    if raw < 0 {
        -r
    } else {
        r
    }
}

impl NearestFraction {
    /// The textual form `numer/denom [±cents c] (±octaves o)`.
    pub fn to_display(&self) -> (r: String)
        ensures
            r@ == crate::text::dec_digits(self.numer as nat) + "/"@ + crate::text::dec_digits(
                self.denom as nat,
            ) + " ["@ + crate::text::dec_digits_plus(
                cents_rounded(self.deviation.raw as int) < 0,
                (if cents_rounded(self.deviation.raw as int) < 0 {
                    -cents_rounded(self.deviation.raw as int)
                } else {
                    cents_rounded(self.deviation.raw as int)
                }) as nat,
            ) + "c] ("@ + crate::text::dec_digits_plus(
                self.num_octaves < 0,
                (if self.num_octaves < 0 {
                    -self.num_octaves as int
                } else {
                    self.num_octaves as int
                }) as nat,
            ) + "o)"@,
    {
        proof {
            reveal_strlit("/");
            reveal_strlit(" [");
            reveal_strlit("c] (");
            reveal_strlit("o)");
        }
        let mut s = crate::text::u128_string(self.numer as u128);
        s.append("/");
        crate::text::push_u128(&mut s, self.denom as u128);
        s.append(" [");
        let mag: u128 = if self.deviation.raw < 0 {
            (-(self.deviation.raw as i128)) as u128
        } else {
            self.deviation.raw as u128
        };
        let cents: u128 = (mag * 1200 + 0x8_0000_0000_0000) / 0x10_0000_0000_0000;
        let signed_cents: i128 = if self.deviation.raw < 0 {
            -(cents as i128)
        } else {
            cents as i128
        };
        crate::text::push_i128_plus(&mut s, signed_cents);
        s.append("c] (");
        crate::text::push_i128_plus(&mut s, self.num_octaves as i128);
        s.append("o)");
        s
    }
}

/// A positive number has a positive odd part, and the odd part never
/// exceeds the number.
proof fn lemma_odd_part_positive(n: nat)
    ensures
        n >= 1 ==> 1 <= crate::math::odd_part(n) <= n,
    decreases n,
{
    if n >= 1 && n % 2 == 0 {
        lemma_odd_part_positive(n / 2);
    }
}

/// Stretching by a ratio and then taking the deviation from the same ratio
/// returns the original ratio, whenever the intermediate sum stays in
/// range.  Without that bound the saturation of the intermediate loses the
/// distance to the original value.
pub proof fn lemma_stretch_then_deviate(a: Ratio, b: Ratio)
    requires
        i64::MIN <= a.raw + b.raw <= i64::MAX,
    ensures
        deviation_spec(stretch_spec(a.raw as int, b.raw as int), b.raw as int) == a.raw,
{
}

/// Dividing a ratio into `n` equal steps and repeating the step `n` times
/// returns the original ratio, whenever `n` divides the raw logarithm
/// evenly.  A raw logarithm of 1 divided into 3 steps truncates to 0 and is
/// lost.
pub proof fn lemma_divide_then_repeat(a: Ratio, n: int)
    requires
        n > 0,
        (a.raw as int) % n == 0,
    ensures
        repeat_spec(divide_spec(a.raw as int, n), n) == a.raw,
{
    let d = divide_spec(a.raw as int, n);
    if a.raw >= 0 {
        vstd::arithmetic::div_mod::lemma_fundamental_div_mod(a.raw as int, n);
        assert(d * n == a.raw as int) by (nonlinear_arith)
            requires
                a.raw as int == n * d + 0,
        ;
    } else {
        let v = a.raw as int;
        let q = v / n;
        vstd::arithmetic::div_mod::lemma_fundamental_div_mod(v, n);
        assert(v == n * q);
        assert(-v == n * (-q) + 0) by (nonlinear_arith)
            requires
                v == n * q,
        ;
        vstd::arithmetic::div_mod::lemma_fundamental_div_mod_converse(-v, n, -q, 0);
        assert(d == q);
        assert(d * n == v) by (nonlinear_arith)
            requires
                v == n * q,
                d == q,
        ;
    }
}

} // verus!
