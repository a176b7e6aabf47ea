//! Decoding and encoding of IEEE-754 double-precision bit patterns.
//!
//! The library never holds a floating-point number; callers outside the
//! verified world pass `f64` values in as their raw `u64` bit patterns and
//! receive bit patterns back.  A finite nonzero value is normalized to a
//! mantissa `m in [2^63, 2^64)` and an exponent `e`, standing for
//! `m / 2^63 · 2^e` (negated if `neg`).

use vstd::prelude::*;

use crate::kernel::two_pow;

verus! {

/// Classification of a decoded `f64` bit pattern.
#[derive(Clone, Copy, PartialEq, Eq, Structural, Debug)]
pub enum FloatClass {
    /// Positive or negative zero.
    Zero,
    /// A finite nonzero number.
    Finite,
    /// Positive or negative infinity.
    Infinite,
    /// Not a number.
    Nan,
}

/// A decoded `f64`: the value `(-1)^neg · mant/2^63 · 2^exp` when finite.
#[derive(Clone, Copy, PartialEq, Eq, Structural, Debug)]
pub struct DecodedFloat {
    pub class: FloatClass,
    pub neg: bool,
    pub mant: u64,
    pub exp: i32,
}

/// Well-formedness of a decoded float: a finite value carries a normalized
/// mantissa, the other classes carry none.
pub open spec fn decoded_wf(d: DecodedFloat) -> bool {
    match d.class {
        FloatClass::Finite => 0x8000_0000_0000_0000 <= d.mant && -1075 <= d.exp <= 1023,
        _ => d.mant == 0 && d.exp == 0,
    }
}

/// The sign bit of a bit pattern.
pub open spec fn bits_neg(bits: u64) -> bool {
    bits / 0x8000_0000_0000_0000 == 1
}

/// The biased exponent field of a bit pattern.
pub open spec fn bits_exp_field(bits: u64) -> int {
    ((bits / 0x10_0000_0000_0000) % 0x800) as int
}

/// The fraction field of a bit pattern.
pub open spec fn bits_frac(bits: u64) -> int {
    (bits % 0x10_0000_0000_0000) as int
}

/// Splits a bit pattern into sign, biased exponent and fraction fields.
fn split_bits(bits: u64) -> (r: (bool, u32, u64))
    ensures
        r.0 == bits_neg(bits),
        r.1 == bits_exp_field(bits),
        r.2 == bits_frac(bits),
{
    let neg = bits / 0x8000_0000_0000_0000 == 1;
    let e_field = ((bits / 0x10_0000_0000_0000) % 0x800) as u32;
    let frac = bits % 0x10_0000_0000_0000;
    (neg, e_field, frac)
}

/// Decodes an `f64` bit pattern.
///
/// For a normal number the mantissa is the 53-bit significand shifted up by
/// 11; for a subnormal it is the fraction shifted up until normalized, with
/// the exponent lowered accordingly, so that in both cases the value equals
/// `(-1)^neg · mant/2^63 · 2^exp` exactly.
pub fn decode_f64(bits: u64) -> (d: DecodedFloat)
    ensures
        decoded_wf(d),
        d.neg == bits_neg(bits),
        (d.class is Zero) <==> (bits_exp_field(bits) == 0 && bits_frac(bits) == 0),
        (d.class is Infinite) <==> (bits_exp_field(bits) == 0x7FF && bits_frac(bits) == 0),
        (d.class is Nan) <==> (bits_exp_field(bits) == 0x7FF && bits_frac(bits) != 0),
        bits_exp_field(bits) == 0 && bits_frac(bits) != 0 ==> {
            &&& d.class is Finite
            &&& d.mant == bits_frac(bits) * two_pow((-1011 - d.exp) as nat)
            &&& -1074 <= d.exp <= -1012
        },
        0 < bits_exp_field(bits) < 0x7FF ==> {
            &&& d.class is Finite
            &&& d.mant == (bits_frac(bits) + 0x10_0000_0000_0000) * 0x800
            &&& d.exp == bits_exp_field(bits) - 1023
        },
{
    let (neg, e_field, frac) = split_bits(bits);
    if e_field == 0x7FF {
        if frac == 0 {
            DecodedFloat { class: FloatClass::Infinite, neg, mant: 0, exp: 0 }
        } else {
            DecodedFloat { class: FloatClass::Nan, neg, mant: 0, exp: 0 }
        }
    } else if e_field == 0 {
        if frac == 0 {
            DecodedFloat { class: FloatClass::Zero, neg, mant: 0, exp: 0 }
        } else {
            let mut mant: u64 = frac;
            let mut exp: i32 = -1011;
            proof {
                assert(two_pow(0) == 1);
                assert(bits_frac(bits) * two_pow(0) == bits_frac(bits)) by (nonlinear_arith)
                    requires
                        two_pow(0) == 1,
                ;
            }
            while mant < 0x8000_0000_0000_0000
                invariant
                    1 <= mant,
                    -1074 <= exp <= -1011,
                    1 <= bits_frac(bits) < 0x10_0000_0000_0000,
                    mant == bits_frac(bits) * two_pow((-1011 - exp) as nat),
                decreases 0x1_0000_0000_0000_0000 - mant,
            {
                proof {
                    lemma_shift_stays_bounded(bits_frac(bits), (-1011 - exp) as nat, mant as nat);
                }
                mant = mant * 2;
                exp = exp - 1;
            }
            proof {
                lemma_normalized_shift_at_least_12(
                    bits_frac(bits),
                    (-1011 - exp) as nat,
                    mant as nat,
                );
            }
            DecodedFloat { class: FloatClass::Finite, neg, mant, exp }
        }
    } else {
        DecodedFloat {
            class: FloatClass::Finite,
            neg,
            mant: (frac + 0x10_0000_0000_0000) * 0x800,
            exp: e_field as i32 - 1023,
        }
    }
}

/// A fraction below 2^52, shifted left while staying below 2^63, has been
/// shifted by fewer than 63 positions.
proof fn lemma_shift_stays_bounded(frac: int, s: nat, mant: nat)
    requires
        1 <= frac < 0x10_0000_0000_0000,
        mant == frac * two_pow(s),
        mant < 0x8000_0000_0000_0000,
    ensures
        s < 63,
        2 * mant == frac * two_pow((s + 1) as nat),
{
    assert(frac * two_pow(s) >= two_pow(s)) by (nonlinear_arith)
        requires
            frac >= 1,
            two_pow(s) >= 0,
    ;
    if s >= 63 {
        crate::kernel::lemma_two_pow_mono(63, s);
        crate::kernel::lemma_two_pow_63();
    }
    assert(frac * two_pow((s + 1) as nat) == 2 * (frac * two_pow(s))) by (nonlinear_arith)
        requires
            two_pow((s + 1) as nat) == 2 * two_pow(s),
    ;
}

/// A fraction below 2^52 needs at least 12 doublings to reach 2^63, so a
/// normalized subnormal mantissa has an exponent of -1023 or lower.
proof fn lemma_normalized_shift_at_least_12(frac: int, s: nat, mant: nat)
    requires
        1 <= frac < 0x10_0000_0000_0000,
        mant == frac * two_pow(s),
        0x8000_0000_0000_0000 <= mant,
    ensures
        s >= 12,
{
    if s < 12 {
        crate::kernel::lemma_two_pow_mono(s, 11);
        assert(two_pow(11) == 2048) by {
            reveal_with_fuel(two_pow, 12);
        }
        assert(frac * two_pow(s) < 0x8000_0000_0000_0000) by (nonlinear_arith)
            requires
                1 <= frac < 0x10_0000_0000_0000,
                0 <= two_pow(s) <= 2048,
        ;
    }
}

/// 2^n as a `u64`, for `n <= 63`.
pub fn pow2_u64(n: u32) -> (r: u64)
    requires
        n <= 63,
    ensures
        r == two_pow(n as nat),
{
    let mut r: u64 = 1;
    let mut i: u32 = 0;
    proof {
        crate::kernel::lemma_two_pow_63();
    }
    while i < n
        invariant
            i <= n <= 63,
            r == two_pow(i as nat),
        decreases n - i,
    {
        proof {
            crate::kernel::lemma_two_pow_mono((i + 1) as nat, 63);
            crate::kernel::lemma_two_pow_63();
        }
        r = r * 2;
        i = i + 1;
    }
    r
}

/// 2^n as a `u128`, for `n <= 127`.
pub fn pow2_u128(n: u32) -> (r: u128)
    requires
        n <= 127,
    ensures
        r == two_pow(n as nat),
{
    let mut r: u128 = 1;
    let mut i: u32 = 0;
    proof {
        lemma_two_pow_127();
    }
    while i < n
        invariant
            i <= n <= 127,
            r == two_pow(i as nat),
        decreases n - i,
    {
        proof {
            crate::kernel::lemma_two_pow_mono((i + 1) as nat, 127);
            lemma_two_pow_127();
        }
        r = r * 2;
        i = i + 1;
    }
    r
}

/// Powers of two multiply by adding exponents.
pub proof fn lemma_two_pow_add(a: nat, b: nat)
    ensures
        two_pow(a + b) == two_pow(a) * two_pow(b),
    decreases a,
{
    if a == 0 {
        assert(two_pow(b) == 1 * two_pow(b)) by (nonlinear_arith);
    } else {
        lemma_two_pow_add((a - 1) as nat, b);
        assert(2 * (two_pow((a - 1) as nat) * two_pow(b)) == (2 * two_pow((a - 1) as nat))
            * two_pow(b)) by (nonlinear_arith);
    }
}

/// The concrete value of 2^127.
pub proof fn lemma_two_pow_127()
    ensures
        two_pow(127) == 0x8000_0000_0000_0000_0000_0000_0000_0000,
{
    crate::kernel::lemma_two_pow_63();
    lemma_two_pow_add(63, 63);
    lemma_two_pow_add(126, 1);
}

/// The truncating result of encoding `(-1)^neg · mant/2^63 · 2^exp` as an
/// `f64` bit pattern: values above the largest finite double become
/// infinity, tiny values lose precision as subnormals and finally become
/// zero.
pub open spec fn encode_spec(neg: bool, mant: u64, exp: int) -> int {
    let sign = if neg {
        0x8000_0000_0000_0000
    } else {
        0int
    };
    if exp > 1023 {
        sign + 0x7FF0_0000_0000_0000
    } else if exp >= -1022 {
        sign + (exp + 1023) * 0x10_0000_0000_0000 + (mant / 0x800 - 0x10_0000_0000_0000)
    } else if 11 + (-1022 - exp) > 126 {
        sign
    } else {
        sign + (mant as int) / (two_pow((11 + (-1022 - exp)) as nat) as int)
    }
}

/// Encodes a normalized value as an `f64` bit pattern, truncating the
/// mantissa.
pub fn encode_f64(neg: bool, mant: u64, exp: i32) -> (bits: u64)
    requires
        0x8000_0000_0000_0000 <= mant,
    ensures
        bits == encode_spec(neg, mant, exp as int),
{
    let sign: u64 = if neg {
        0x8000_0000_0000_0000
    } else {
        0
    };
    if exp > 1023 {
        sign + 0x7FF0_0000_0000_0000
    } else if exp >= -1022 {
        let frac53 = mant / 0x800;
        sign + (exp + 1023) as u64 * 0x10_0000_0000_0000 + (frac53 - 0x10_0000_0000_0000)
    } else {
        let d: i32 = 11 + (-1022 - exp);
        if d > 126 {
            sign
        } else {
            let divisor = pow2_u128(d as u32);
            proof {
                crate::kernel::lemma_two_pow_mono(0, d as nat);
                crate::kernel::lemma_two_pow_mono(12, d as nat);
                assert(two_pow(12) == 4096) by {
                    reveal_with_fuel(two_pow, 13);
                }
                vstd::arithmetic::div_mod::lemma_div_is_ordered_by_denominator(
                    mant as int,
                    4096,
                    two_pow(d as nat) as int,
                );
            }
            let q = (mant as u128 / divisor) as u64;
            sign + q
        }
    }
}

} // verus!
