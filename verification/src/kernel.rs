//! Integer kernels for the transcendental functions the engine needs:
//! base-2 logarithm and exponential of a mantissa, and a sine polynomial.
//!
//! A mantissa is a `u64` in `[2^63, 2^64)` standing for the real number
//! `m / 2^63` in `[1, 2)`.  `log2_frac` extracts 63 bits of `log2(m/2^63)` by
//! repeated squaring; `exp2_frac` inverts it by binary search.  The exact
//! result of the bit extraction is pinned down by the spec function
//! [`log2_bits`], which mirrors the computation step by step.

use vstd::prelude::*;

verus! {

/// 2^n.
pub open spec fn two_pow(n: nat) -> nat
    decreases n,
{
    if n == 0 {
        1
    } else {
        2 * two_pow((n - 1) as nat)
    }
}

/// The first `n` fraction bits of `log2(x / 2^63)`, for a mantissa
/// `x in [2^63, 2^64)`, as an `n`-bit integer.
///
/// Each step squares the mantissa; if the square reaches 2, the next bit of
/// the logarithm is 1 and the square is halved.  The divisions keep the
/// mantissa in `[2^63, 2^64)` and truncate, so the result is a deterministic
/// function of `x` alone.
pub open spec fn log2_bits(x: nat, n: nat) -> nat
    decreases n,
{
    if n == 0 {
        0
    } else {
        let sq = x * x;
        if sq >= 0x8000_0000_0000_0000_0000_0000_0000_0000 {
            two_pow((n - 1) as nat) + log2_bits(sq / 0x1_0000_0000_0000_0000, (n - 1) as nat)
        } else {
            log2_bits(sq / 0x8000_0000_0000_0000, (n - 1) as nat)
        }
    }
}

/// `two_pow` is monotone.
pub proof fn lemma_two_pow_mono(a: nat, b: nat)
    requires
        a <= b,
    ensures
        two_pow(a) <= two_pow(b),
    decreases b,
{
    if a < b {
        lemma_two_pow_mono(a, (b - 1) as nat);
    }
}

/// The concrete value of 2^63.
pub proof fn lemma_two_pow_63()
    ensures
        two_pow(63) == 0x8000_0000_0000_0000,
{
    reveal_with_fuel(two_pow, 64);
}

/// `log2_bits` stays below 2^n.
pub proof fn lemma_log2_bits_range(x: nat, n: nat)
    ensures
        log2_bits(x, n) < two_pow(n),
    decreases n,
{
    if n > 0 {
        let sq = x * x;
        if sq >= 0x8000_0000_0000_0000_0000_0000_0000_0000 {
            lemma_log2_bits_range(sq / 0x1_0000_0000_0000_0000, (n - 1) as nat);
        } else {
            lemma_log2_bits_range(sq / 0x8000_0000_0000_0000, (n - 1) as nat);
        }
    }
}

/// The logarithm of 1 is 0: a mantissa of exactly 2^63 yields no set bits.
pub proof fn lemma_log2_bits_one(n: nat)
    ensures
        log2_bits(0x8000_0000_0000_0000, n) == 0,
    decreases n,
{
    if n > 0 {
        assert(0x8000_0000_0000_0000 * 0x8000_0000_0000_0000
            < 0x8000_0000_0000_0000_0000_0000_0000_0000nat) by (nonlinear_arith);
        assert((0x8000_0000_0000_0000 * 0x8000_0000_0000_0000nat) / 0x8000_0000_0000_0000
            == 0x8000_0000_0000_0000nat) by (nonlinear_arith);
        lemma_log2_bits_one((n - 1) as nat);
    }
}

/// Squaring a mantissa keeps the wide product within `u128` and at least
/// 2^126.
proof fn lemma_mantissa_square_bounds(x: nat)
    requires
        0x8000_0000_0000_0000 <= x < 0x1_0000_0000_0000_0000,
    ensures
        0x4000_0000_0000_0000_0000_0000_0000_0000 <= x * x
            < 0x1_0000_0000_0000_0000_0000_0000_0000_0000,
{
    assert(0x4000_0000_0000_0000_0000_0000_0000_0000 <= x * x
        < 0x1_0000_0000_0000_0000_0000_0000_0000_0000) by (nonlinear_arith)
        requires
            0x8000_0000_0000_0000 <= x < 0x1_0000_0000_0000_0000,
    ;
}

/// 63 fraction bits of the base-2 logarithm of the mantissa `m`.
pub fn log2_frac(m: u64) -> (f: u64)
    requires
        m >= 0x8000_0000_0000_0000,
    ensures
        f == log2_bits(m as nat, 63),
        f < 0x8000_0000_0000_0000,
{
    let mut x: u64 = m;
    let mut f: u64 = 0;
    let mut i: u64 = 0;
    proof {
        lemma_two_pow_63();
    }
    while i < 63
        invariant
            i <= 63,
            0x8000_0000_0000_0000 <= x,
            f < two_pow(i as nat),
            two_pow(i as nat) <= 0x8000_0000_0000_0000,
            log2_bits(m as nat, 63) == f * two_pow((63 - i) as nat) + log2_bits(
                x as nat,
                (63 - i) as nat,
            ),
        decreases 63 - i,
    {
        proof {
            lemma_two_pow_63();
            lemma_two_pow_mono((i + 1) as nat, 63);
            lemma_mantissa_square_bounds(x as nat);
            lemma_log2_bits_range(x as nat, (63 - i) as nat);
        }
        let ghost n: nat = (63 - i) as nat;
        let ghost f0: nat = f as nat;
        let sq: u128 = (x as u128) * (x as u128);
        if sq >= 0x8000_0000_0000_0000_0000_0000_0000_0000u128 {
            x = (sq / 0x1_0000_0000_0000_0000u128) as u64;
            f = f * 2 + 1;
            proof {
                assert((2 * f0 + 1) * two_pow((n - 1) as nat) + log2_bits(x as nat, (n - 1) as nat)
                    == f0 * two_pow(n) + (two_pow((n - 1) as nat) + log2_bits(
                    x as nat,
                    (n - 1) as nat,
                ))) by (nonlinear_arith)
                    requires
                        two_pow(n) == 2 * two_pow((n - 1) as nat),
                ;
            }
        } else {
            x = (sq / 0x8000_0000_0000_0000u128) as u64;
            f = f * 2;
            proof {
                assert((2 * f0) * two_pow((n - 1) as nat) + log2_bits(x as nat, (n - 1) as nat)
                    == f0 * two_pow(n) + log2_bits(x as nat, (n - 1) as nat)) by (nonlinear_arith)
                    requires
                        two_pow(n) == 2 * two_pow((n - 1) as nat),
                ;
            }
        }
        i = i + 1;
    }
    proof {
        lemma_two_pow_63();
        assert(two_pow(0) == 1);
        assert(log2_bits(x as nat, 0) == 0);
        assert(log2_bits(m as nat, 63) == f * two_pow(0) + log2_bits(x as nat, 0));
        assert(f * two_pow(0) == f) by (nonlinear_arith);
        assert(f == log2_bits(m as nat, 63));
    }
    f
}

/// The mantissa whose 63-bit logarithm best matches `f`: the largest
/// mantissa `m` with `log2_bits(m, 63) <= f`, found by binary search.
pub fn exp2_frac(f: u64) -> (m: u64)
    requires
        f < 0x8000_0000_0000_0000,
    ensures
        0x8000_0000_0000_0000 <= m,
        m == exp2_of(f as nat),
{
    let mut lo: u64 = 0x8000_0000_0000_0000;
    let mut hi: u128 = 0x1_0000_0000_0000_0000;
    proof {
        lemma_log2_bits_one(63);
    }
    while hi - (lo as u128) > 1
        invariant
            0x8000_0000_0000_0000 <= lo,
            (lo as u128) < hi <= 0x1_0000_0000_0000_0000,
            log2_bits(lo as nat, 63) <= f,
            hi < 0x1_0000_0000_0000_0000 ==> log2_bits(hi as nat, 63) > f,
        decreases hi - lo,
    {
        let mid: u64 = ((lo as u128 + hi) / 2) as u64;
        if log2_frac(mid) <= f {
            lo = mid;
        } else {
            hi = mid as u128;
        }
    }
    proof {
        assert(is_exp2_result(f as nat, lo as nat));
        assert(is_exp2_result(f as nat, exp2_of(f as nat)));
        lemma_exp2_unique(f as nat, lo as nat, exp2_of(f as nat));
    }
    lo
}

/// `log2_bits` is monotone in the mantissa.
pub proof fn lemma_log2_bits_mono(x1: nat, x2: nat, n: nat)
    requires
        x1 <= x2,
    ensures
        log2_bits(x1, n) <= log2_bits(x2, n),
    decreases n,
{
    if n > 0 {
        assert(x1 * x1 <= x2 * x2) by (nonlinear_arith)
            requires
                x1 <= x2,
        ;
        let s1 = x1 * x1;
        let s2 = x2 * x2;
        if s1 >= 0x8000_0000_0000_0000_0000_0000_0000_0000 {
            vstd::arithmetic::div_mod::lemma_div_is_ordered(
                s1 as int,
                s2 as int,
                0x1_0000_0000_0000_0000,
            );
            lemma_log2_bits_mono(
                s1 / 0x1_0000_0000_0000_0000,
                s2 / 0x1_0000_0000_0000_0000,
                (n - 1) as nat,
            );
        } else if s2 < 0x8000_0000_0000_0000_0000_0000_0000_0000 {
            vstd::arithmetic::div_mod::lemma_div_is_ordered(
                s1 as int,
                s2 as int,
                0x8000_0000_0000_0000,
            );
            lemma_log2_bits_mono(
                s1 / 0x8000_0000_0000_0000,
                s2 / 0x8000_0000_0000_0000,
                (n - 1) as nat,
            );
        } else {
            lemma_log2_bits_range(s1 / 0x8000_0000_0000_0000, (n - 1) as nat);
        }
    }
}

/// Characterizes the result of [`exp2_frac`]: the largest mantissa whose
/// 63-bit logarithm does not exceed `f`.
pub open spec fn is_exp2_result(f: nat, m: nat) -> bool {
    &&& 0x8000_0000_0000_0000 <= m <= 0xFFFF_FFFF_FFFF_FFFF
    &&& log2_bits(m, 63) <= f
    &&& (m == 0xFFFF_FFFF_FFFF_FFFF || log2_bits(m + 1, 63) > f)
}

/// The unique mantissa characterized by [`is_exp2_result`].
pub open spec fn exp2_of(f: nat) -> nat {
    choose|m: nat| is_exp2_result(f, m)
}

/// Two mantissas with the [`is_exp2_result`] property are equal: the
/// characterization pins the exponential down.
pub proof fn lemma_exp2_unique(f: nat, a: nat, b: nat)
    requires
        is_exp2_result(f, a),
        is_exp2_result(f, b),
    ensures
        a == b,
{
    if a < b {
        lemma_log2_bits_mono(a + 1, b, 63);
    }
    if b < a {
        lemma_log2_bits_mono(b + 1, a, 63);
    }
}

/// The angle π/2 in Q62 fixed point.
pub const PI_HALF_Q62: u64 = 0x6487_ED51_10B4_611A;

/// The value 1 in Q62 fixed point.
pub const ONE_Q62: u64 = 0x4000_0000_0000_0000;

/// Upper bound of the squared angle `x^2 / 2^62` for `x <= PI_HALF_Q62`.
pub const SIN_XSQ_MAX: u64 = 0x9DEA_72C5_3B4B_2A09;

/// One factor of the nested sine polynomial:
/// `1 - (xsq * t / 2^62) / c`, in Q62 fixed point.
pub open spec fn sin_poly_term(xsq: int, t: int, c: int) -> int {
    0x4000_0000_0000_0000 - ((xsq * t) / 0x4000_0000_0000_0000) / c
}

/// The nested odd polynomial for `sin(x)` on `[0, pi/2]`, in Q62 fixed
/// point: `x * (1 - x^2/6 * (1 - x^2/20 * (... (1 - x^2/210) ...)))`, with
/// every product truncated as the executable code truncates it.
pub open spec fn sin_quarter_spec(x: int) -> int {
    let xsq = (x * x) / 0x4000_0000_0000_0000;
    let t7 = sin_poly_term(xsq, 0x4000_0000_0000_0000, 210);
    let t6 = sin_poly_term(xsq, t7, 156);
    let t5 = sin_poly_term(xsq, t6, 110);
    let t4 = sin_poly_term(xsq, t5, 72);
    let t3 = sin_poly_term(xsq, t4, 42);
    let t2 = sin_poly_term(xsq, t3, 20);
    let t1 = sin_poly_term(xsq, t2, 6);
    let raw = (x * t1) / 0x4000_0000_0000_0000;
    if raw > 0x4000_0000_0000_0000 {
        0x4000_0000_0000_0000
    } else {
        raw
    }
}

/// A product of two bounded naturals is bounded by the product of the
/// bounds.
pub(crate) proof fn lemma_mul_le(a: int, b: int, bound_a: int, bound_b: int)
    requires
        0 <= a <= bound_a,
        0 <= b <= bound_b,
    ensures
        a * b <= bound_a * bound_b,
{
    assert(a * b <= bound_a * bound_b) by (nonlinear_arith)
        requires
            0 <= a <= bound_a,
            0 <= b <= bound_b,
    ;
}

/// One executable factor of the nested sine polynomial.
fn sin_term(xsq: u64, t: u64, c: u64) -> (r: u64)
    requires
        xsq <= SIN_XSQ_MAX,
        t <= ONE_Q62,
        6 <= c <= 210,
    ensures
        r == sin_poly_term(xsq as int, t as int, c as int),
        r <= ONE_Q62,
{
    proof {
        lemma_mul_le(xsq as int, t as int, SIN_XSQ_MAX as int, ONE_Q62 as int);
        vstd::arithmetic::div_mod::lemma_div_is_ordered(
            (xsq as int) * (t as int),
            (SIN_XSQ_MAX as int) * (ONE_Q62 as int),
            ONE_Q62 as int,
        );
    }
    let scaled: u128 = (xsq as u128) * (t as u128) / (ONE_Q62 as u128);
    let shrunk: u128 = scaled / (c as u128);
    proof {
        vstd::arithmetic::div_mod::lemma_div_is_ordered(scaled as int, SIN_XSQ_MAX as int, 6);
        vstd::arithmetic::div_mod::lemma_div_is_ordered_by_denominator(
            scaled as int,
            6,
            c as int,
        );
    }
    ONE_Q62 - (shrunk as u64)
}

/// `sin(x)` for an angle `x in [0, pi/2]` in Q62 fixed point, by the nested
/// odd polynomial of degree 15.  The result is the exact truncated value of
/// [`sin_quarter_spec`], which lies within a few units in the last place of
/// 2^62·sin(x/2^62).
pub fn sin_quarter(x: u64) -> (r: u64)
    requires
        x <= PI_HALF_Q62,
    ensures
        r == sin_quarter_spec(x as int),
        r <= ONE_Q62,
{
    proof {
        lemma_mul_le(x as int, x as int, PI_HALF_Q62 as int, PI_HALF_Q62 as int);
    }
    let xsq: u64 = ((x as u128) * (x as u128) / (ONE_Q62 as u128)) as u64;
    let t7 = sin_term(xsq, ONE_Q62, 210);
    let t6 = sin_term(xsq, t7, 156);
    let t5 = sin_term(xsq, t6, 110);
    let t4 = sin_term(xsq, t5, 72);
    let t3 = sin_term(xsq, t4, 42);
    let t2 = sin_term(xsq, t3, 20);
    let t1 = sin_term(xsq, t2, 6);
    proof {
        lemma_mul_le(x as int, t1 as int, PI_HALF_Q62 as int, ONE_Q62 as int);
    }
    let wide: u128 = (x as u128) * (t1 as u128) / (ONE_Q62 as u128);
    if wide > ONE_Q62 as u128 {
        ONE_Q62
    } else {
        wide as u64
    }
}

} // verus!
