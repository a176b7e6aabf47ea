//! The ratio expression language: `1.5`, `3/2`, `7:12:2`, `702c`, with
//! parentheses and nesting.
//!
//! Expressions are evaluated over [`Val`], a signed value that carries the
//! base-2 logarithm of its magnitude and, where no rounding has occurred,
//! an exact fraction used for error messages.  The whole language is
//! specified over `Seq<char>`: [`parse_of`] maps every input to its
//! variant or its exact error text through the trimming, balanced
//! splitting and number-scanning specs, the evaluation is a function of
//! the variant ([`variant_value`]), and the printed forms ([`val_str_of`],
//! [`expr_str_of`]) pin every emitted character.

use vstd::prelude::*;

use crate::fx::{clip_i64, div_trunc, Fx, FX_ONE_RAW};
use crate::pitch::{Pitch, Ratio};
use crate::text::push_u128;

verus! {

/// `log2(10)` in raw units of 2^-52 octaves.
pub const LOG2_10_RAW: i64 = 14960634130286307;

/// Classification of an evaluated expression value.
#[derive(Clone, Copy, PartialEq, Eq, Structural, Debug)]
pub enum ValClass {
    Zero,
    Finite,
    Infinite,
    Nan,
}

/// An evaluated expression value: the class, the sign, the base-2
/// logarithm of the magnitude (for finite nonzero values), and an exact
/// fraction when no rounding has occurred.
#[derive(Clone, Copy, PartialEq, Eq, Structural, Debug)]
pub struct Val {
    pub class: ValClass,
    pub neg: bool,
    pub log: i64,
    pub num: u128,
    pub den: u128,
    pub exact: bool,
}

impl Val {
    /// The value 0.
    pub fn zero(neg: bool) -> (r: Val)
        ensures
            r == spec_zero(neg),
            r.class is Zero,
            r.neg == neg,
    {
        Val { class: ValClass::Zero, neg, log: 0, num: 0, den: 1, exact: true }
    }

    /// An infinite value.
    pub fn infinite(neg: bool) -> (r: Val)
        ensures
            r == spec_inf(neg),
            r.class is Infinite,
            r.neg == neg,
    {
        Val { class: ValClass::Infinite, neg, log: 0, num: 0, den: 1, exact: false }
    }

    /// An undefined value.
    pub fn nan() -> (r: Val)
        ensures
            r == spec_nan(),
            r.class is Nan,
            !r.neg,
    {
        Val { class: ValClass::Nan, neg: false, log: 0, num: 0, den: 1, exact: false }
    }
}

/// The zero value, as the evaluator builds it.
pub open spec fn spec_zero(neg: bool) -> Val {
    Val { class: ValClass::Zero, neg, log: 0, num: 0, den: 1, exact: true }
}

/// The infinite value, as the evaluator builds it.
pub open spec fn spec_inf(neg: bool) -> Val {
    Val { class: ValClass::Infinite, neg, log: 0, num: 0, den: 1, exact: false }
}

/// The undefined value, as the evaluator builds it.
pub open spec fn spec_nan() -> Val {
    Val { class: ValClass::Nan, neg: false, log: 0, num: 0, den: 1, exact: false }
}

/// The quotient of two evaluated values, in full: class and sign follow
/// floating-point conventions, finite logarithms subtract (saturated), and
/// the exact fraction survives when the cross products fit.
pub open spec fn div_result(a: Val, b: Val) -> Val {
    let neg = a.neg != b.neg;
    if a.class is Nan || b.class is Nan {
        spec_nan()
    } else if a.class is Zero {
        if b.class is Zero {
            spec_nan()
        } else {
            spec_zero(neg)
        }
    } else if b.class is Zero {
        spec_inf(neg)
    } else if a.class is Infinite {
        if b.class is Infinite {
            spec_nan()
        } else {
            spec_inf(neg)
        }
    } else if b.class is Infinite {
        spec_zero(neg)
    } else {
        let log = clip_i64(a.log - b.log) as i64;
        if a.exact && b.exact && b.num > 0 && a.den > 0 && a.num * b.den
            <= 0xFFFF_FFFF_FFFF_FFFF_FFFF_FFFF_FFFF_FFFF && a.den * b.num
            <= 0xFFFF_FFFF_FFFF_FFFF_FFFF_FFFF_FFFF_FFFF {
            Val {
                class: ValClass::Finite,
                neg,
                log,
                num: (a.num * b.den) as u128,
                den: (a.den * b.num) as u128,
                exact: true,
            }
        } else {
            Val { class: ValClass::Finite, neg, log, num: 0, den: 1, exact: false }
        }
    }
}

/// The Q32.32 value a finite or zero evaluated value converts to.
pub open spec fn fx_of_val(v: Val) -> int {
    if v.class is Zero {
        0
    } else if v.neg {
        clip_i64(-crate::pitch::hz_fx_of(v.log as int))
    } else {
        crate::pitch::hz_fx_of(v.log as int)
    }
}

/// The Q32.32 exponent `numer / denom` that the power evaluator forms.
pub open spec fn powf_exp_raw(numer: Val, denom: Val) -> int {
    let n = fx_of_val(numer);
    let d = fx_of_val(denom);
    clip_i64(
        if d > 0 {
            div_trunc(n * FX_ONE_RAW, d)
        } else {
            div_trunc(-(n * FX_ONE_RAW), -d)
        },
    )
}

/// `interval` raised to the power `numer / denom`, in full: an undefined
/// operand, a negative base or a non-numeric exponent is undefined, a zero
/// exponent denominator gives infinity, and otherwise the base's class and
/// the exponent's sign decide, with a finite base scaling its logarithm.
pub open spec fn powf_result(interval: Val, numer: Val, denom: Val) -> Val {
    if numer.class is Nan || denom.class is Nan || interval.class is Nan {
        spec_nan()
    } else if interval.class is Finite && interval.neg {
        spec_nan()
    } else if !((numer.class is Finite || numer.class is Zero) && (denom.class is Finite
        || denom.class is Zero)) {
        spec_nan()
    } else if fx_of_val(denom) == 0 {
        spec_inf(false)
    } else {
        let e = powf_exp_raw(numer, denom);
        if interval.class is Zero {
            if e > 0 {
                spec_zero(false)
            } else {
                spec_inf(false)
            }
        } else if interval.class is Infinite {
            if e > 0 {
                spec_inf(false)
            } else if e == 0 {
                Val { class: ValClass::Finite, neg: false, log: 0, num: 1, den: 1, exact: true }
            } else {
                spec_zero(false)
            }
        } else {
            Val {
                class: ValClass::Finite,
                neg: false,
                log: clip_i64(div_trunc(interval.log * e, FX_ONE_RAW as int)) as i64,
                num: 0,
                den: 1,
                exact: false,
            }
        }
    }
}

/// A value read as a cents count, in full: `2^(v/1200)`, through the exact
/// fraction when one survived and through the Q32.32 approximation
/// otherwise.
pub open spec fn cents_result(v: Val) -> Val {
    if v.class is Nan {
        spec_nan()
    } else if v.class is Infinite {
        if v.neg {
            spec_zero(false)
        } else {
            spec_inf(false)
        }
    } else if v.class is Zero {
        Val { class: ValClass::Finite, neg: false, log: 0, num: 1, den: 1, exact: true }
    } else {
        let log = if v.exact && v.num <= 0xFFFF_FFFF_FFFF_FFFF && 1 <= v.den && v.den
            <= 0xFFFF_FFFF_FFFF_FFFF {
            let q = (v.num * 0x10_0000_0000_0000) / (1200 * v.den);
            let mag = if q > 0x7FFF_FFFF_FFFF_FFFF {
                0x7FFF_FFFF_FFFF_FFFF as int
            } else {
                q as int
            };
            if v.neg {
                -mag
            } else {
                mag
            }
        } else {
            clip_i64(div_trunc(fx_of_val(v) * 0x10_0000, 1200))
        };
        Val { class: ValClass::Finite, neg: false, log: log as i64, num: 0, den: 1, exact: false }
    }
}

/// The single value a parsed expression variant evaluates to.
pub open spec fn variant_value(v: RatioExpressionVariant) -> Val {
    match v {
        RatioExpressionVariant::Float { float_value } => float_value,
        RatioExpressionVariant::Fraction { numer, denom } => div_result(numer, denom),
        RatioExpressionVariant::IntervalFraction { numer, denom, interval } => powf_result(
            interval,
            numer,
            denom,
        ),
        RatioExpressionVariant::Cents { cents_value } => cents_result(cents_value),
    }
}

/// The class and sign of a quotient, following the conventions of
/// floating-point division.
pub open spec fn div_class(a: Val, b: Val) -> (ValClass, bool) {
    let neg = a.neg != b.neg;
    if a.class is Nan || b.class is Nan {
        (ValClass::Nan, false)
    } else if a.class is Zero {
        if b.class is Zero {
            (ValClass::Nan, false)
        } else {
            (ValClass::Zero, neg)
        }
    } else if b.class is Zero {
        (ValClass::Infinite, neg)
    } else if a.class is Infinite {
        if b.class is Infinite {
            (ValClass::Nan, false)
        } else {
            (ValClass::Infinite, neg)
        }
    } else if b.class is Infinite {
        (ValClass::Zero, neg)
    } else {
        (ValClass::Finite, neg)
    }
}

/// Divides two evaluated values.  For finite operands the logarithm of
/// the quotient is the exact (saturated) difference of the logarithms,
/// and the exact fractions divide when no overflow occurs.
pub fn val_div(a: Val, b: Val) -> (r: Val)
    ensures
        r == div_result(a, b),
        r.class == div_class(a, b).0,
        r.neg == div_class(a, b).1,
        a.class is Finite && b.class is Finite ==> r.log == clip_i64(a.log - b.log),
{
    let neg = a.neg != b.neg;
    match (a.class, b.class) {
        (ValClass::Nan, _) => Val::nan(),
        (_, ValClass::Nan) => Val::nan(),
        (ValClass::Zero, ValClass::Zero) => Val::nan(),
        (ValClass::Zero, _) => Val::zero(neg),
        (_, ValClass::Zero) => Val::infinite(neg),
        (ValClass::Infinite, ValClass::Infinite) => Val::nan(),
        (ValClass::Infinite, _) => Val::infinite(neg),
        (_, ValClass::Infinite) => Val::zero(neg),
        (ValClass::Finite, ValClass::Finite) => {
            let log = crate::fx::clip_i128_exec(a.log as i128 - b.log as i128);
            let (num, den, exact) = if a.exact && b.exact && b.num > 0 && a.den > 0 {
                match (a.num.checked_mul(b.den), a.den.checked_mul(b.num)) {
                    (Some(n), Some(d)) => (n, d, true),
                    _ => (0, 1, false),
                }
            } else {
                (0u128, 1u128, false)
            };
            Val { class: ValClass::Finite, neg, log, num, den, exact }
        },
    }
}

/// The linear Q32.32 value of a finite [`Val`], saturated: the
/// exponential of the stored logarithm with the sign applied.
pub fn val_to_fx(v: Val) -> (r: Fx)
    requires
        v.class is Finite || v.class is Zero,
    ensures
        v.class is Zero ==> r.raw == 0,
        v.class is Finite && !v.neg ==> r.raw == crate::pitch::hz_fx_of(v.log as int),
        v.class is Finite && v.neg ==> r.raw == clip_i64(
            -crate::pitch::hz_fx_of(v.log as int),
        ),
{
    match v.class {
        ValClass::Zero => Fx { raw: 0 },
        _ => {
            let mag = Pitch { raw: v.log }.as_hz_fx();
            if v.neg {
                mag.neg()
            } else {
                mag
            }
        },
    }
}

/// Raises `interval` to the power `numer / denom`.
///
/// The exponent is formed as a linear quotient; a nonpositive base yields
/// an undefined value, a zero base collapses to zero or infinity by the
/// exponent's sign, and an overflowing exponent saturates the logarithm.
pub fn val_powf(interval: Val, numer: Val, denom: Val) -> (r: Val)
    ensures
        r == powf_result(interval, numer, denom),
        interval.class is Nan || numer.class is Nan || denom.class is Nan ==> r.class is Nan,
        interval.class is Finite && interval.neg ==> r.class is Nan,
{
    if matches!(numer.class, ValClass::Nan) || matches!(denom.class, ValClass::Nan) || matches!(
        interval.class,
        ValClass::Nan,
    ) {
        return Val::nan();
    }
    if matches!(interval.class, ValClass::Finite) && interval.neg {
        return Val::nan();
    }
    let exp_ok = (matches!(numer.class, ValClass::Finite) || matches!(
        numer.class,
        ValClass::Zero,
    )) && (matches!(denom.class, ValClass::Finite) || matches!(denom.class, ValClass::Zero));
    if !exp_ok {
        return Val::nan();
    }
    let n_fx = val_to_fx(numer);
    let d_fx = val_to_fx(denom);
    if d_fx.is_zero() {
        return Val::infinite(false);
    }
    let exp_fx = n_fx.div(d_fx);
    match interval.class {
        ValClass::Zero => {
            if exp_fx.raw > 0 {
                Val::zero(false)
            } else {
                Val::infinite(false)
            }
        },
        ValClass::Infinite => {
            if exp_fx.raw > 0 {
                Val::infinite(false)
            } else if exp_fx.raw == 0 {
                Val {
                    class: ValClass::Finite,
                    neg: false,
                    log: 0,
                    num: 1,
                    den: 1,
                    exact: true,
                }
            } else {
                Val::zero(false)
            }
        },
        _ => {
            proof {
                crate::fx::lemma_i64_mul_bounds(interval.log as int, exp_fx.raw as int);
            }
            let wide: i128 = (interval.log as i128) * (exp_fx.raw as i128);
            let log = crate::fx::div_i128(wide, crate::fx::FX_ONE_RAW as i128);
            Val { class: ValClass::Finite, neg: false, log: log.raw, num: 0, den: 1, exact: false }
        },
    }
}

/// Interprets a value as a cents count: the result is `2^(v/1200)`.
pub fn val_cents(v: Val) -> (r: Val)
    ensures
        r == cents_result(v),
        v.class is Nan ==> r.class is Nan,
        v.class is Infinite ==> r.class == (if v.neg {
            ValClass::Zero
        } else {
            ValClass::Infinite
        }),
        v.class is Zero ==> r.class is Finite && !r.neg && r.log == 0,
{
    match v.class {
        ValClass::Nan => Val::nan(),
        ValClass::Infinite => {
            if v.neg {
                Val::zero(false)
            } else {
                Val::infinite(false)
            }
        },
        ValClass::Zero => Val { class: ValClass::Finite, neg: false, log: 0, num: 1, den: 1, exact: true },
        ValClass::Finite => {
            let log: i64 = if v.exact && v.num <= 0xFFFF_FFFF_FFFF_FFFFu128 && 1 <= v.den
                && v.den <= 0xFFFF_FFFF_FFFF_FFFFu128 {
                let wide: u128 = v.num * 0x10_0000_0000_0000u128;
                let q: u128 = wide / (1200u128 * v.den);
                let mag = if q > 0x7FFF_FFFF_FFFF_FFFFu128 {
                    i64::MAX
                } else {
                    q as i64
                };
                if v.neg {
                    -mag
                } else {
                    mag
                }
            } else {
                let c_fx = val_to_fx(v);
                proof {
                    crate::fx::lemma_i64_mul_bounds(c_fx.raw as int, 0x10_0000);
                }
                let wide: i128 = (c_fx.raw as i128) * 0x10_0000i128;
                crate::fx::div_i128(wide, 1200).raw
            };
            Val { class: ValClass::Finite, neg: false, log, num: 0, den: 1, exact: false }
        },
    }
}

/// The decimal expansion of `rem / den` from position `k` on: up to 30
/// digits, stopping at a zero remainder or one too wide to scale.
pub open spec fn frac_expansion(rem: nat, den: nat, k: int) -> Seq<char>
    decreases 30 - k,
{
    if rem == 0 || k >= 30 || rem > 0x1000_0000_0000_0000_0000_0000_0000_0000 || den == 0 {
        Seq::empty()
    } else {
        let scaled = rem * 10;
        let digit = scaled / den;
        seq![
            crate::text::digit_char(
                if digit > 9 {
                    9int
                } else {
                    digit as int
                },
            ),
        ] + frac_expansion(scaled % den, den, k + 1)
    }
}

/// The text a value prints as: `0`, `inf`, `NaN` with their signs, the
/// decimal expansion of the exact fraction, or the truncated Q32.32
/// magnitude when no exact fraction survived.
pub open spec fn val_str_of(v: Val) -> Seq<char> {
    if v.class is Zero {
        if v.neg {
            "-0"@
        } else {
            "0"@
        }
    } else if v.class is Infinite {
        if v.neg {
            "-inf"@
        } else {
            "inf"@
        }
    } else if v.class is Nan {
        "NaN"@
    } else {
        let sign: Seq<char> = if v.neg {
            "-"@
        } else {
            Seq::empty()
        };
        if v.exact && v.den >= 1 {
            let ip = (v.num as nat) / (v.den as nat);
            let rem = (v.num as nat) % (v.den as nat);
            sign + crate::text::dec_digits(ip) + (if rem != 0 {
                "."@ + frac_expansion(rem, v.den as nat, 0)
            } else {
                Seq::<char>::empty()
            })
        } else {
            let fxv = crate::pitch::hz_fx_of(v.log as int);
            let mag: nat = if fxv < 0 {
                0
            } else {
                (fxv / (crate::fx::FX_ONE_RAW as int)) as nat
            };
            sign + crate::text::dec_digits(mag)
        }
    }
}

/// Prints a value the way the expression parser reports it: `0`, `inf`,
/// `NaN`, or a decimal expansion of the exact fraction.
pub fn val_string(v: Val) -> (r: String)
    ensures
        v.class is Zero && !v.neg ==> r@ == "0"@,
        v.class is Zero && v.neg ==> r@ == "-0"@,
        v.class is Infinite && !v.neg ==> r@ == "inf"@,
        v.class is Infinite && v.neg ==> r@ == "-inf"@,
        v.class is Nan ==> r@ == "NaN"@,
        r@ == val_str_of(v),
{
    proof {
        reveal_strlit("0");
        reveal_strlit("-0");
        reveal_strlit("inf");
        reveal_strlit("-inf");
        reveal_strlit("NaN");
        reveal_strlit("-");
        reveal_strlit(".");
    }
    match v.class {
        ValClass::Zero => {
            if v.neg {
                "-0".to_owned()
            } else {
                "0".to_owned()
            }
        },
        ValClass::Infinite => {
            if v.neg {
                "-inf".to_owned()
            } else {
                "inf".to_owned()
            }
        },
        ValClass::Nan => "NaN".to_owned(),
        ValClass::Finite => {
            let mut s = String::new();
            let ghost sign: Seq<char> = if v.neg {
                "-"@
            } else {
                Seq::<char>::empty()
            };
            if v.neg {
                s.append("-");
            }
            proof {
                assert(s@ =~= sign);
            }
            if v.exact && v.den >= 1 {
                let int_part = v.num / v.den;
                let mut rem = v.num % v.den;
                push_u128(&mut s, int_part);
                let ghost rem0 = rem as nat;
                if rem != 0 {
                    s.append(".");
                    let ghost target = sign + crate::text::dec_digits((v.num as nat) / (
                    v.den as nat)) + "."@ + frac_expansion(rem0, v.den as nat, 0);
                    proof {
                        assert(target =~= s@ + frac_expansion(rem as nat, v.den as nat, 0));
                    }
                    let mut k: usize = 0;
                    while rem != 0 && k < 30 && rem <= 0x1000_0000_0000_0000_0000_0000_0000_0000u128
                        invariant
                            v.den >= 1,
                            rem < v.den || rem == 0,
                            k <= 30,
                            target == s@ + frac_expansion(rem as nat, v.den as nat, k as int),
                        decreases 30 - k,
                    {
                        let ghost rem_in = rem as nat;
                        let scaled = rem * 10;
                        let digit = scaled / v.den;
                        rem = scaled % v.den;
                        push_u128(&mut s, if digit > 9 {
                            9
                        } else {
                            digit
                        });
                        proof {
                            let d: nat = if digit > 9 {
                                9
                            } else {
                                digit as nat
                            };
                            assert(crate::text::dec_digits(d) =~= seq![
                                crate::text::digit_char(d as int),
                            ]);
                            assert(frac_expansion(rem_in, v.den as nat, k as int) =~= seq![
                                crate::text::digit_char(d as int),
                            ] + frac_expansion(rem as nat, v.den as nat, k + 1));
                            assert(target =~= s@ + frac_expansion(rem as nat, v.den as nat, k + 1));
                        }
                        k = k + 1;
                    }
                    proof {
                        assert(frac_expansion(rem as nat, v.den as nat, k as int)
                            =~= Seq::<char>::empty());
                        assert(s@ =~= target);
                        assert(s@ =~= val_str_of(v));
                    }
                } else {
                    proof {
                        assert(s@ =~= val_str_of(v));
                    }
                }
            } else {
                // No exact fraction survived the evaluation; report the
                // magnitude through its Q32.32 approximation.
                let fx = Pitch { raw: v.log }.as_hz_fx();
                let mag = if fx.raw < 0 {
                    0
                } else {
                    fx.raw / crate::fx::FX_ONE_RAW
                };
                push_u128(&mut s, mag as u128);
                proof {
                    assert(s@ =~= val_str_of(v));
                }
            }
            s
        },
    }
}

/// One variant of a parsed ratio expression, with its evaluated parts.
#[derive(Clone, Copy, PartialEq, Eq, Structural, Debug)]
pub enum RatioExpressionVariant {
    Float { float_value: Val },
    Fraction { numer: Val, denom: Val },
    IntervalFraction { numer: Val, denom: Val, interval: Val },
    Cents { cents_value: Val },
}

impl RatioExpressionVariant {
    /// Evaluates the variant to a single value.
    pub fn as_val(self) -> (r: Result<Val, String>)
        ensures
            r is Ok <==> !(variant_value(self).class is Infinite || variant_value(
                self,
            ).class is Nan),
            r matches Ok(v) ==> v == variant_value(self),
            r matches Err(e) ==> e@ == "Evaluates to "@ + val_str_of(variant_value(self)),
    {
        let value = match self {
            RatioExpressionVariant::Float { float_value } => float_value,
            RatioExpressionVariant::Fraction { numer, denom } => val_div(numer, denom),
            RatioExpressionVariant::IntervalFraction { numer, denom, interval } => val_powf(
                interval,
                numer,
                denom,
            ),
            RatioExpressionVariant::Cents { cents_value } => val_cents(cents_value),
        };
        match value.class {
            ValClass::Infinite => {
                let mut m = "Evaluates to ".to_owned();
                let vs = val_string(value);
                m.append(vs.as_str());
                proof {
                    assert(m@ =~= "Evaluates to "@ + val_str_of(value));
                }
                Err(m)
            },
            ValClass::Nan => {
                let mut m = "Evaluates to ".to_owned();
                let vs = val_string(value);
                m.append(vs.as_str());
                proof {
                    assert(m@ =~= "Evaluates to "@ + val_str_of(value));
                }
                Err(m)
            },
            _ => Ok(value),
        }
    }

    /// Evaluates the variant and requires the result to be strictly
    /// positive.
    pub fn as_ratio(self) -> (r: Result<Ratio, String>)
        ensures
            r is Ok <==> (variant_value(self).class is Finite && !variant_value(self).neg),
            r matches Ok(rt) ==> rt.raw == variant_value(self).log,
            r matches Err(e) ==> e@ == ratio_err_of(self),
    {
        let value = match self.as_val() {
            Ok(v) => v,
            Err(e) => { return Err(e) },
        };
        let positive = match value.class {
            ValClass::Finite => !value.neg,
            _ => false,
        };
        if positive {
            Ok(Ratio { raw: value.log })
        } else {
            let mut m = "Evaluates to ".to_owned();
            let vs = val_string(value);
            m.append(vs.as_str());
            m.append(" but should be positive");
            proof {
                assert(m@ =~= ratio_err_of(self));
            }
            Err(m)
        }
    }
}

impl RatioExpressionVariant {
    /// Re-emits the expression as text, when every component still has an
    /// exact value: the result parses back to an equivalent ratio.
    pub fn to_expression_string(self) -> (r: Option<String>)
        ensures
            r is Some <==> match self {
                RatioExpressionVariant::Float { float_value } => float_value.exact
                    && !float_value.neg,
                RatioExpressionVariant::Fraction { numer, denom } => numer.exact && !numer.neg
                    && denom.exact && !denom.neg,
                RatioExpressionVariant::IntervalFraction { numer, denom, interval } => numer.exact
                    && !numer.neg && denom.exact && !denom.neg && interval.exact && !interval.neg,
                RatioExpressionVariant::Cents { cents_value } => cents_value.exact
                    && !cents_value.neg,
            },
            r matches Some(t) ==> t@ == expr_str_of(self),
    {
        proof {
            reveal_strlit("/");
            reveal_strlit(":");
            reveal_strlit("c");
        }
        match self {
            RatioExpressionVariant::Float { float_value } => {
                if float_value.exact && !float_value.neg {
                    Some(val_string(float_value))
                } else {
                    None
                }
            },
            RatioExpressionVariant::Fraction { numer, denom } => {
                if numer.exact && !numer.neg && denom.exact && !denom.neg {
                    let mut s = val_string(numer);
                    s.append("/");
                    let d = val_string(denom);
                    s.append(d.as_str());
                    proof {
                        assert(s@ =~= expr_str_of(self));
                    }
                    Some(s)
                } else {
                    None
                }
            },
            RatioExpressionVariant::IntervalFraction { numer, denom, interval } => {
                if numer.exact && !numer.neg && denom.exact && !denom.neg && interval.exact
                    && !interval.neg {
                    let mut s = val_string(numer);
                    s.append(":");
                    let d = val_string(denom);
                    s.append(d.as_str());
                    s.append(":");
                    let iv = val_string(interval);
                    s.append(iv.as_str());
                    proof {
                        assert(s@ =~= expr_str_of(self));
                    }
                    Some(s)
                } else {
                    None
                }
            },
            RatioExpressionVariant::Cents { cents_value } => {
                if cents_value.exact && !cents_value.neg {
                    let mut s = val_string(cents_value);
                    s.append("c");
                    proof {
                        assert(s@ =~= expr_str_of(self));
                    }
                    Some(s)
                } else {
                    None
                }
            },
        }
    }
}

/// The message rejecting a variant whose value is no positive finite
/// ratio: an undefined or infinite value reports itself, any other
/// non-positive value adds the positivity demand.
pub open spec fn ratio_err_of(v: RatioExpressionVariant) -> Seq<char> {
    let value = variant_value(v);
    if value.class is Infinite || value.class is Nan {
        "Evaluates to "@ + val_str_of(value)
    } else {
        "Evaluates to "@ + val_str_of(value) + " but should be positive"@
    }
}

/// The text a variant re-emits: its parts' values in the variant's own
/// syntax.
pub open spec fn expr_str_of(v: RatioExpressionVariant) -> Seq<char> {
    match v {
        RatioExpressionVariant::Float { float_value } => val_str_of(float_value),
        RatioExpressionVariant::Fraction { numer, denom } => val_str_of(numer) + "/"@ + val_str_of(
            denom,
        ),
        RatioExpressionVariant::IntervalFraction { numer, denom, interval } => val_str_of(numer)
            + ":"@ + val_str_of(denom) + ":"@ + val_str_of(interval),
        RatioExpressionVariant::Cents { cents_value } => val_str_of(cents_value) + "c"@,
    }
}

/// A successfully parsed and validated ratio expression.
#[derive(Clone, Copy, PartialEq, Eq, Structural, Debug)]
pub struct RatioExpression {
    pub ratio: Ratio,
    pub representation: RatioExpressionVariant,
}

impl RatioExpression {
    /// The validated ratio.
    pub fn ratio(self) -> (r: Ratio)
        ensures
            r == self.ratio,
    {
        self.ratio
    }

    /// The outer expression form the input used.
    pub fn variant(self) -> (r: RatioExpressionVariant)
        ensures
            r == self.representation,
    {
        self.representation
    }

    /// Parses and validates an expression: success, the representation,
    /// the ratio and the error text are exact functions of the input.
    pub fn parse(s: &str) -> (r: Result<RatioExpression, String>)
        ensures
            r is Ok <==> parse_accepts(s@),
            r matches Ok(e) ==> {
                &&& parse_of(s@) == Result::<RatioExpressionVariant, Seq<char>>::Ok(
                    e.representation,
                )
                &&& variant_value(e.representation).class is Finite
                &&& !variant_value(e.representation).neg
                &&& e.ratio.raw == variant_value(e.representation).log
            },
            r matches Err(m) ==> m@ == parse_err_of(s@),
    {
        let trimmed = trim_str(s);
        proof {
            lemma_trim_idempotent(s@);
        }
        match parse_ratio(trimmed) {
            Ok(representation) => {
                match representation.as_ratio() {
                    Ok(ratio) => Ok(RatioExpression { ratio, representation }),
                    Err(e) => Err(invalid_expression_message(trimmed, e)),
                }
            },
            Err(e) => Err(invalid_expression_message(trimmed, e)),
        }
    }
}

/// Whether the input parses to a positive finite ratio.
pub open spec fn parse_accepts(s: Seq<char>) -> bool {
    parse_of(s) matches Result::Ok(v) && variant_value(v).class is Finite && !variant_value(
        v,
    ).neg
}

/// The message [`RatioExpression::parse`] rejects the input with: the
/// trimmed input quoted, then the grammar's or the evaluator's complaint.
pub open spec fn parse_err_of(s: Seq<char>) -> Seq<char> {
    match parse_of(s) {
        Result::Err(e) => "Invalid expression '"@ + trim_of(s) + "': "@ + e,
        Result::Ok(v) => "Invalid expression '"@ + trim_of(s) + "': "@ + ratio_err_of(v),
    }
}

/// A trimmed string has no leading or trailing space.
proof fn lemma_trim_front_clean(s: Seq<char>)
    ensures
        trim_front(s).len() > 0 ==> !is_space_c(trim_front(s)[0]),
        trim_front(s).len() > 0 ==> trim_front(s)[trim_front(s).len() - 1] == s[s.len() - 1],
        trim_front(s).len() > 0 ==> s.len() > 0,
    decreases s.len(),
{
    if s.len() > 0 && is_space_c(s[0]) {
        lemma_trim_front_clean(s.skip(1));
        if trim_front(s).len() > 0 {
            assert(s.skip(1)[s.skip(1).len() - 1] == s[s.len() - 1]);
        }
    }
}

/// A trimmed string has no leading or trailing space.
proof fn lemma_trim_back_clean(s: Seq<char>)
    ensures
        trim_back(s).len() > 0 ==> !is_space_c(trim_back(s)[trim_back(s).len() - 1]),
        trim_back(s).len() > 0 ==> trim_back(s)[0] == s[0],
        trim_back(s).len() > 0 ==> s.len() > 0,
    decreases s.len(),
{
    if s.len() > 0 && is_space_c(s[s.len() - 1]) {
        lemma_trim_back_clean(s.take(s.len() - 1));
        if trim_back(s).len() > 0 {
            assert(s.take(s.len() - 1)[0] == s[0]);
        }
    }
}

/// Trimming a trimmed string changes nothing.
pub proof fn lemma_trim_idempotent(s: Seq<char>)
    ensures
        trim_of(trim_of(s)) == trim_of(s),
{
    let t = trim_of(s);
    lemma_trim_front_clean(s);
    lemma_trim_back_clean(trim_front(s));
    if t.len() > 0 {
        assert(t[0] == trim_front(s)[0]);
        assert(!is_space_c(t[0]));
        assert(trim_front(t) == t);
        assert(!is_space_c(t[t.len() - 1]));
        assert(trim_back(t) == t);
    } else {
        assert(trim_front(t) == t);
        assert(trim_back(t) == t);
    }
}

/// `Invalid expression '<input>': <inner>`.
fn invalid_expression_message(s: &str, inner: String) -> (r: String)
    ensures
        r@ == "Invalid expression '"@ + s@ + "': "@ + inner@,
{
    let mut m = "Invalid expression '".to_owned();
    m.append(s);
    m.append("': ");
    m.append(inner.as_str());
    proof {
        assert(m@ =~= "Invalid expression '"@ + s@ + "': "@ + inner@);
    }
    m
}

/// Strips leading and trailing whitespace, by character index.
/// Whitespace the expression language ignores.
pub open spec fn is_space_c(c: char) -> bool {
    c == ' ' || c == '\t' || c == '\n' || c == '\r'
}

/// The string with its leading whitespace removed.
pub open spec fn trim_front(s: Seq<char>) -> Seq<char>
    decreases s.len(),
{
    if s.len() > 0 && is_space_c(s[0]) {
        trim_front(s.skip(1))
    } else {
        s
    }
}

/// The string with its trailing whitespace removed.
pub open spec fn trim_back(s: Seq<char>) -> Seq<char>
    decreases s.len(),
{
    if s.len() > 0 && is_space_c(s[s.len() - 1]) {
        trim_back(s.take(s.len() - 1))
    } else {
        s
    }
}

/// The string with its surrounding whitespace removed.
pub open spec fn trim_of(s: Seq<char>) -> Seq<char> {
    trim_back(trim_front(s))
}

fn trim_str(s: &str) -> (r: &str)
    ensures
        r@.len() <= s@.len(),
        r@ == trim_of(s@),
{
    let n = s.unicode_len();
    let mut start: usize = 0;
    proof {
        assert(s@.skip(0) =~= s@);
    }
    while start < n && is_space(s.get_char(start))
        invariant
            start <= n,
            n == s@.len(),
            trim_front(s@) == trim_front(s@.skip(start as int)),
        decreases n - start,
    {
        proof {
            assert(s@.skip(start as int)[0] == s@[start as int]);
            assert(s@.skip(start as int).skip(1) =~= s@.skip(start + 1));
        }
        start = start + 1;
    }
    proof {
        if start < n {
            assert(s@.skip(start as int)[0] == s@[start as int]);
        }
        assert(trim_front(s@) == s@.skip(start as int));
    }
    let mut end: usize = n;
    proof {
        assert(s@.skip(start as int).take(n - start) =~= s@.skip(start as int));
    }
    while end > start && is_space(s.get_char(end - 1))
        invariant
            start <= end <= n,
            n == s@.len(),
            trim_front(s@) == s@.skip(start as int),
            trim_back(s@.skip(start as int)) == trim_back(
                s@.skip(start as int).take(end - start),
            ),
        decreases end,
    {
        proof {
            let cur = s@.skip(start as int).take(end - start);
            assert(cur[cur.len() - 1] == s@[end - 1]);
            assert(cur.take(cur.len() - 1) =~= s@.skip(start as int).take(end - 1 - start));
        }
        end = end - 1;
    }
    proof {
        let cur = s@.skip(start as int).take(end - start);
        if end > start {
            assert(cur[cur.len() - 1] == s@[end - 1]);
        }
        assert(trim_back(cur) == cur);
        assert(s@.subrange(start as int, end as int) =~= cur);
    }
    s.substring_char(start, end)
}

/// Whitespace characters the expression language ignores.
fn is_space(c: char) -> (r: bool)
    ensures
        r == is_space_c(c),
{
    c == ' ' || c == '\t' || c == '\n' || c == '\r'
}

/// The parenthesis depth after the first `i` characters.
pub open spec fn depth_at(s: Seq<char>, i: int) -> int
    decreases i,
{
    if i <= 0 {
        0
    } else {
        depth_at(s, i - 1) + (if s[i - 1] == '(' {
            1int
        } else if s[i - 1] == ')' {
            -1int
        } else {
            0int
        })
    }
}

/// Whether the parentheses of the string are balanced.
pub open spec fn balanced_ok(s: Seq<char>) -> bool {
    &&& depth_at(s, s.len() as int) == 0
    &&& forall|i: int| 0 <= i <= s.len() ==> #[trigger] depth_at(s, i) >= 0
}

/// A top-level occurrence of the separator: the character at `j` is the
/// separator, is no parenthesis, and stands at depth zero.
pub open spec fn is_cut(s: Seq<char>, sep: char, j: int) -> bool {
    &&& 0 <= j < s.len()
    &&& s[j] == sep
    &&& s[j] != '('
    &&& s[j] != ')'
    &&& depth_at(s, j) == 0
}

/// The first top-level separator at or after `i`.
pub open spec fn first_cut_from(s: Seq<char>, sep: char, i: int) -> Option<int>
    decreases s.len() - i,
{
    if i >= s.len() {
        Option::None
    } else if is_cut(s, sep, i) {
        Option::Some(i)
    } else {
        first_cut_from(s, sep, i + 1)
    }
}

/// A found cut lies in `[i, s.len())` and is a cut.
pub proof fn lemma_first_cut_bounds(s: Seq<char>, sep: char, i: int)
    ensures
        first_cut_from(s, sep, i) matches Option::Some(j) ==> i <= j < s.len() && is_cut(
            s,
            sep,
            j,
        ),
    decreases s.len() - i,
{
    if i < s.len() && !is_cut(s, sep, i) {
        lemma_first_cut_bounds(s, sep, i + 1);
    }
}

/// Without a cut in `[a, b)`, the scan from `a` and from `b` agree.
proof fn lemma_first_cut_skip(s: Seq<char>, sep: char, a: int, b: int)
    requires
        a <= b,
        forall|j: int| a <= j < b ==> !(#[trigger] is_cut(s, sep, j)),
    ensures
        first_cut_from(s, sep, a) == first_cut_from(s, sep, b),
    decreases b - a,
{
    if a < b {
        if a >= s.len() {
            assert(b >= s.len());
        } else {
            lemma_first_cut_skip(s, sep, a + 1, b);
        }
    }
}

/// The parts of the string from `start` on, cut at the top-level
/// separators.
pub open spec fn split_from(s: Seq<char>, sep: char, start: int) -> Seq<Seq<char>>
    decreases s.len() - start,
{
    match first_cut_from(s, sep, start) {
        Option::Some(j) => {
            proof {
                lemma_first_cut_bounds(s, sep, start);
            }
            seq![s.subrange(start, j)] + split_from(s, sep, j + 1)
        },
        Option::None => seq![s.subrange(start, s.len() as int)],
    }
}

/// The top-level split of the string: an unbalanced input stays whole.
pub open spec fn split_bal(s: Seq<char>, sep: char) -> Seq<Seq<char>> {
    if balanced_ok(s) {
        split_from(s, sep, 0)
    } else {
        seq![s]
    }
}

/// Every part of a split is at most as long as its range; with a cut in
/// range, strictly shorter by one.
proof fn lemma_split_from_shorter(s: Seq<char>, sep: char, start: int)
    requires
        0 <= start <= s.len(),
    ensures
        split_from(s, sep, start).len() >= 1,
        forall|i: int|
            0 <= i < split_from(s, sep, start).len() ==> (#[trigger] split_from(s, sep, start)[i]).len()
                <= s.len() - start,
        first_cut_from(s, sep, start) is Some ==> forall|i: int|
            0 <= i < split_from(s, sep, start).len() ==> (#[trigger] split_from(s, sep, start)[i]).len()
                <= s.len() - start - 1,
    decreases s.len() - start,
{
    lemma_first_cut_bounds(s, sep, start);
    match first_cut_from(s, sep, start) {
        Option::Some(j) => {
            lemma_split_from_shorter(s, sep, j + 1);
            let parts = split_from(s, sep, start);
            let rest = split_from(s, sep, j + 1);
            assert forall|i: int| 0 <= i < parts.len() implies (#[trigger] parts[i]).len() <= s.len()
                - start - 1 by {
                if i == 0 {
                    assert(parts[0] == s.subrange(start, j));
                } else {
                    assert(parts[i] == rest[i - 1]);
                }
            }
        },
        Option::None => {},
    }
}

/// The parts of a genuine split are strictly shorter than the input.
pub proof fn lemma_split_parts_shorter(s: Seq<char>, sep: char)
    ensures
        split_bal(s, sep).len() >= 1,
        split_bal(s, sep).len() > 1 ==> forall|i: int|
            0 <= i < split_bal(s, sep).len() ==> (#[trigger] split_bal(s, sep)[i]).len() < s.len(),
{
    if balanced_ok(s) {
        lemma_split_from_shorter(s, sep, 0);
        if split_bal(s, sep).len() > 1 {
            assert(first_cut_from(s, sep, 0) is Some);
            lemma_first_cut_bounds(s, sep, 0);
        }
    }
}

/// Splits a string at the top-level occurrences of a separator: positions
/// where the parenthesis depth is zero.  An unbalanced input yields the
/// whole string as one part.
fn split_balanced(s: &str, sep: char) -> (parts: Vec<String>)
    ensures
        parts@.len() >= 1,
        parts@.len() > 1 ==> forall|i: int|
            0 <= i < parts@.len() ==> (#[trigger] parts@[i])@.len() < s@.len(),
        parts@.len() == split_bal(s@, sep).len(),
        forall|i: int| 0 <= i < parts@.len() ==> (#[trigger] parts@[i])@ == split_bal(s@, sep)[i],
{
    let n = s.unicode_len();
    let mut depth: usize = 0;
    let mut balanced = true;
    let mut cuts: Vec<usize> = Vec::new();
    let mut i: usize = 0;
    while i < n
        invariant
            i <= n,
            n == s@.len(),
            depth <= i,
            forall|k: int| 0 <= k < cuts@.len() ==> (#[trigger] cuts@[k]) < i,
            forall|k1: int, k2: int|
                0 <= k1 < k2 < cuts@.len() ==> (#[trigger] cuts@[k1]) < (#[trigger] cuts@[k2]),
            balanced <==> (forall|j: int| 0 <= j <= i ==> #[trigger] depth_at(s@, j) >= 0),
            balanced ==> depth == depth_at(s@, i as int),
            balanced ==> (forall|k: int|
                0 <= k < cuts@.len() ==> is_cut(s@, sep, (#[trigger] cuts@[k]) as int)),
            balanced ==> (forall|j: int|
                0 <= j < i && #[trigger] is_cut(s@, sep, j) ==> cuts@.contains(j as usize)),
        decreases n - i,
    {
        let c = s.get_char(i);
        let ghost cuts0 = cuts@;
        let ghost was_balanced = balanced;
        if c == '(' {
            depth = depth + 1;
        } else if c == ')' {
            if depth == 0 {
                balanced = false;
            } else {
                depth = depth - 1;
            }
        } else if c == sep && depth == 0 {
            cuts.push(i);
        }
        proof {
            assert(depth_at(s@, i + 1) == depth_at(s@, i as int) + (if s@[i as int] == '(' {
                1int
            } else if s@[i as int] == ')' {
                -1int
            } else {
                0int
            }));
            if was_balanced {
                if c == ')' && depth_at(s@, i as int) == 0 {
                    assert(depth_at(s@, i + 1) == -1);
                    assert(!balanced);
                } else {
                    assert(forall|j: int| 0 <= j <= i + 1 ==> #[trigger] depth_at(s@, j) >= 0);
                }
                if c == sep && c != '(' && c != ')' && depth_at(s@, i as int) == 0 {
                    assert(cuts@ == cuts0.push(i as usize));
                    assert(is_cut(s@, sep, i as int));
                    assert forall|j: int|
                        0 <= j < i + 1 && #[trigger] is_cut(s@, sep, j) implies cuts@.contains(
                        j as usize,
                    ) by {
                        if j < i {
                            assert(cuts0.contains(j as usize));
                            let m = choose|m: int| 0 <= m < cuts0.len() && cuts0[m] == j as usize;
                            assert(cuts@[m] == j as usize);
                        } else {
                            assert(cuts@[cuts@.len() - 1] == i as usize);
                        }
                    }
                } else {
                    assert forall|j: int|
                        0 <= j < i + 1 && #[trigger] is_cut(s@, sep, j) implies cuts@.contains(
                        j as usize,
                    ) by {
                        assert(j < i);
                    }
                }
            } else {
                assert(!balanced);
                let bad = choose|j: int| 0 <= j <= i && depth_at(s@, j) < 0;
                assert(depth_at(s@, bad) < 0);
            }
        }
        i = i + 1;
    }
    proof {
        if balanced && depth == 0 {
            assert(balanced_ok(s@));
        } else {
            assert(!balanced_ok(s@));
        }
    }
    if !balanced || depth != 0 || cuts.len() == 0 {
        let mut parts: Vec<String> = Vec::new();
        parts.push(s.to_owned());
        proof {
            if balanced && depth == 0 {
                assert forall|j: int| 0 <= j < n implies !is_cut(s@, sep, j) by {
                    if is_cut(s@, sep, j) {
                        assert(cuts@.contains(j as usize));
                    }
                }
                lemma_first_cut_skip(s@, sep, 0, n as int);
                assert(first_cut_from(s@, sep, n as int) is None);
                assert(split_bal(s@, sep) == seq![s@.subrange(0, n as int)]);
                assert(s@.subrange(0, n as int) =~= s@);
            } else {
                assert(split_bal(s@, sep) == seq![s@]);
            }
        }
        return parts;
    }
    let mut parts: Vec<String> = Vec::new();
    let mut start: usize = 0;
    let mut k: usize = 0;
    let num_cuts = cuts.len();
    let ghost mut done: Seq<Seq<char>> = Seq::empty();
    proof {
        assert(done + split_from(s@, sep, 0) =~= split_from(s@, sep, 0));
    }
    while k < num_cuts
        invariant
            k <= num_cuts,
            num_cuts == cuts@.len(),
            n == s@.len(),
            num_cuts >= 1,
            balanced_ok(s@),
            forall|m: int| 0 <= m < cuts@.len() ==> (#[trigger] cuts@[m]) < n,
            forall|m1: int, m2: int|
                0 <= m1 < m2 < cuts@.len() ==> (#[trigger] cuts@[m1]) < (#[trigger] cuts@[m2]),
            forall|m: int| 0 <= m < cuts@.len() ==> is_cut(s@, sep, (#[trigger] cuts@[m]) as int),
            forall|j: int|
                0 <= j < n && #[trigger] is_cut(s@, sep, j) ==> cuts@.contains(j as usize),
            k < num_cuts ==> start <= cuts@[k as int],
            k >= 1 ==> start == cuts@[k as int - 1] + 1,
            k == 0 ==> start == 0,
            start <= n,
            parts@.len() == k,
            forall|m: int| 0 <= m < parts@.len() ==> (#[trigger] parts@[m])@.len() < n,
            done.len() == k,
            forall|m: int| 0 <= m < k ==> (#[trigger] parts@[m])@ == done[m],
            split_from(s@, sep, 0) == done + split_from(s@, sep, start as int),
        decreases num_cuts - k,
    {
        let cut = cuts[k];
        let part = s.substring_char(start, cut).to_owned();
        proof {
            assert(part@.len() == cut - start);
            assert forall|j: int| start <= j < cut implies !is_cut(s@, sep, j) by {
                if is_cut(s@, sep, j) {
                    assert(cuts@.contains(j as usize));
                    let m = choose|m: int| 0 <= m < cuts@.len() && cuts@[m] == j as usize;
                    if m < k {
                        assert(k >= 1 && cuts@[m] <= cuts@[k as int - 1]);
                    } else {
                        assert(cuts@[k as int] <= cuts@[m]);
                    }
                }
            }
            lemma_first_cut_skip(s@, sep, start as int, cut as int);
            assert(first_cut_from(s@, sep, cut as int) == Option::Some(cut as int));
            assert(split_from(s@, sep, start as int) == seq![s@.subrange(start as int, cut as int)]
                + split_from(s@, sep, cut + 1));
            assert(done + split_from(s@, sep, start as int) =~= done.push(
                s@.subrange(start as int, cut as int),
            ) + split_from(s@, sep, cut + 1));
        }
        parts.push(part);
        proof {
            done = done.push(s@.subrange(start as int, cut as int));
            assert(part@ =~= s@.subrange(start as int, cut as int));
        }
        start = cut + 1;
        k = k + 1;
        proof {
            if k < num_cuts {
                assert(cuts@[k as int - 1] < cuts@[k as int]);
            }
        }
    }
    let last = s.substring_char(start, n).to_owned();
    proof {
        assert(last@.len() == n - start);
        assert(cuts@[0] < n);
        assert(start >= cuts@[num_cuts - 1] + 1);
        assert forall|j: int| start <= j < n implies !is_cut(s@, sep, j) by {
            if is_cut(s@, sep, j) {
                assert(cuts@.contains(j as usize));
                let m = choose|m: int| 0 <= m < cuts@.len() && cuts@[m] == j as usize;
                assert(cuts@[m] <= cuts@[num_cuts - 1]);
            }
        }
        lemma_first_cut_skip(s@, sep, start as int, n as int);
        assert(first_cut_from(s@, sep, n as int) is None);
        assert(split_from(s@, sep, start as int) == seq![s@.subrange(start as int, n as int)]);
        assert(last@ =~= s@.subrange(start as int, n as int));
    }
    parts.push(last);
    proof {
        done = done.push(s@.subrange(start as int, n as int));
        assert(split_from(s@, sep, 0) =~= done);
        assert(split_bal(s@, sep) == split_from(s@, sep, 0));
    }
    parts
}

/// Trimming never lengthens a string.
pub proof fn lemma_trim_front_shorter(s: Seq<char>)
    ensures
        trim_front(s).len() <= s.len(),
    decreases s.len(),
{
    if s.len() > 0 && is_space_c(s[0]) {
        lemma_trim_front_shorter(s.skip(1));
    }
}

/// Trimming never lengthens a string.
pub proof fn lemma_trim_back_shorter(s: Seq<char>)
    ensures
        trim_back(s).len() <= s.len(),
    decreases s.len(),
{
    if s.len() > 0 && is_space_c(s[s.len() - 1]) {
        lemma_trim_back_shorter(s.take(s.len() - 1));
    }
}

/// Trimming never lengthens a string.
pub proof fn lemma_trim_of_shorter(s: Seq<char>)
    ensures
        trim_of(s).len() <= s.len(),
{
    lemma_trim_front_shorter(s);
    lemma_trim_back_shorter(trim_front(s));
}

/// `Invalid <name> '<part>': <inner>`.
pub open spec fn part_err_of(name: Seq<char>, part: Seq<char>, inner: Seq<char>) -> Seq<char> {
    "Invalid "@ + name + " '"@ + part + "': "@ + inner
}

/// The catch-all rejection of a string that fits no expression form.
pub open spec fn no_form_err() -> Seq<char> {
    "Must be a float (e.g. 1.5), fraction (e.g. 3/2), interval fraction (e.g. 7:12:2) or cents value (e.g. 702c)"@
}

/// The variant a string parses to, or the text rejecting it.  The trimmed
/// input is read as an interval fraction, a fraction, a cents value, a
/// parenthesized expression or a plain number, in that order; the parts of
/// a compound form parse recursively and evaluate through
/// [`variant_value`], with errors wrapped in the part's role.
pub open spec fn parse_of(s: Seq<char>) -> Result<RatioExpressionVariant, Seq<char>>
    decreases s.len(), 0int,
{
    let t = trim_of(s);
    let colon = split_bal(t, ':');
    if colon.len() == 3 {
        proof {
            lemma_trim_of_shorter(s);
            lemma_split_parts_shorter(t, ':');
        }
        match part_of(colon[0], "interval numerator"@) {
            Result::Err(e) => Result::Err(e),
            Result::Ok(numer) => match part_of(colon[1], "interval denominator"@) {
                Result::Err(e) => Result::Err(e),
                Result::Ok(denom) => match part_of(colon[2], "interval"@) {
                    Result::Err(e) => Result::Err(e),
                    Result::Ok(interval) => Result::Ok(
                        RatioExpressionVariant::IntervalFraction { numer, denom, interval },
                    ),
                },
            },
        }
    } else {
        let slash = split_bal(t, '/');
        if slash.len() == 2 {
            proof {
                lemma_trim_of_shorter(s);
                lemma_split_parts_shorter(t, '/');
            }
            match part_of(slash[0], "numerator"@) {
                Result::Err(e) => Result::Err(e),
                Result::Ok(numer) => match part_of(slash[1], "denominator"@) {
                    Result::Err(e) => Result::Err(e),
                    Result::Ok(denom) => Result::Ok(
                        RatioExpressionVariant::Fraction { numer, denom },
                    ),
                },
            }
        } else {
            let cp = split_bal(t, 'c');
            if cp.len() == 2 && cp[1].len() == 0 {
                proof {
                    lemma_trim_of_shorter(s);
                    lemma_split_parts_shorter(t, 'c');
                }
                match part_of(cp[0], "cents value"@) {
                    Result::Err(e) => Result::Err(e),
                    Result::Ok(cents_value) => Result::Ok(
                        RatioExpressionVariant::Cents { cents_value },
                    ),
                }
            } else if t.len() >= 2 && t[0] == '(' && t[t.len() - 1] == ')' {
                proof {
                    lemma_trim_of_shorter(s);
                }
                parse_of(t.subrange(1, t.len() - 1))
            } else {
                match number_of(t) {
                    Option::Some(v) => Result::Ok(
                        RatioExpressionVariant::Float { float_value: v },
                    ),
                    Option::None => Result::Err(no_form_err()),
                }
            }
        }
    }
}

/// One part of a compound form: it parses and evaluates, with errors
/// wrapped in the part's role and text.
pub open spec fn part_of(p: Seq<char>, name: Seq<char>) -> Result<Val, Seq<char>>
    decreases p.len(), 1int,
{
    match parse_of(p) {
        Result::Err(e) => Result::Err(part_err_of(name, p, e)),
        Result::Ok(v) => {
            let value = variant_value(v);
            if value.class is Infinite || value.class is Nan {
                Result::Err(part_err_of(name, p, "Evaluates to "@ + val_str_of(value)))
            } else {
                Result::Ok(value)
            }
        },
    }
}

/// `Invalid <name> '<part>': <inner>`.
fn invalid_part_message(name: &str, part: &str, inner: String) -> (r: String)
    ensures
        r@ == part_err_of(name@, part@, inner@),
{
    proof {
        reveal_strlit("Invalid ");
        reveal_strlit(" '");
        reveal_strlit("': ");
    }
    let mut m = "Invalid ".to_owned();
    m.append(name);
    m.append(" '");
    m.append(part);
    m.append("': ");
    m.append(inner.as_str());
    proof {
        assert(m@ =~= part_err_of(name@, part@, inner@));
    }
    m
}

/// Parses one expression: an interval fraction, a fraction, a cents value,
/// a parenthesized expression or a plain number, in that order; the
/// outcome, variant and error text are exactly [`parse_of`].
fn parse_ratio(s: &str) -> (r: Result<RatioExpressionVariant, String>)
    ensures
        r is Ok <==> parse_of(s@) is Ok,
        r matches Ok(v) ==> parse_of(s@) == Result::<RatioExpressionVariant, Seq<char>>::Ok(v),
        r matches Err(e) ==> (parse_of(s@) matches Result::Err(m) && e@ == m),
    decreases s@.len(), 1int,
{
    let ghost orig = s@;
    let s = trim_str(s);
    let n = s.unicode_len();
    let colon_parts = split_balanced(s, ':');
    if colon_parts.len() == 3 {
        let numer = match parse_part(colon_parts[0].as_str(), "interval numerator", s) {
            Ok(v) => v,
            Err(e) => { return Err(e) },
        };
        let denom = match parse_part(colon_parts[1].as_str(), "interval denominator", s) {
            Ok(v) => v,
            Err(e) => { return Err(e) },
        };
        let interval = match parse_part(colon_parts[2].as_str(), "interval", s) {
            Ok(v) => v,
            Err(e) => { return Err(e) },
        };
        return Ok(RatioExpressionVariant::IntervalFraction { numer, denom, interval });
    }
    let slash_parts = split_balanced(s, '/');
    if slash_parts.len() == 2 {
        let numer = match parse_part(slash_parts[0].as_str(), "numerator", s) {
            Ok(v) => v,
            Err(e) => { return Err(e) },
        };
        let denom = match parse_part(slash_parts[1].as_str(), "denominator", s) {
            Ok(v) => v,
            Err(e) => { return Err(e) },
        };
        return Ok(RatioExpressionVariant::Fraction { numer, denom });
    }
    let c_parts = split_balanced(s, 'c');
    if c_parts.len() == 2 && c_parts[1].unicode_len() == 0 {
        let cents_value = match parse_part(c_parts[0].as_str(), "cents value", s) {
            Ok(v) => v,
            Err(e) => { return Err(e) },
        };
        return Ok(RatioExpressionVariant::Cents { cents_value });
    }
    if n >= 2 && s.get_char(0) == '(' && s.get_char(n - 1) == ')' {
        let inner = s.substring_char(1, n - 1);
        return parse_ratio(inner);
    }
    match parse_number(s) {
        Some(v) => Ok(RatioExpressionVariant::Float { float_value: v }),
        None => {
            proof {
                reveal_strlit(
                    "Must be a float (e.g. 1.5), fraction (e.g. 3/2), interval fraction (e.g. 7:12:2) or cents value (e.g. 702c)",
                );
            }
            Err(
                "Must be a float (e.g. 1.5), fraction (e.g. 3/2), interval fraction (e.g. 7:12:2) or cents value (e.g. 702c)".to_owned(),
            )
        },
    }
}

/// Parses one part of a larger expression and evaluates it, wrapping
/// errors with the part's role and text; the outcome, value and error
/// text are exactly [`part_of`].
fn parse_part(part: &str, name: &str, whole: &str) -> (r: Result<Val, String>)
    requires
        part@.len() < whole@.len(),
    ensures
        r is Ok <==> part_of(part@, name@) is Ok,
        r matches Ok(v) ==> part_of(part@, name@) == Result::<Val, Seq<char>>::Ok(v),
        r matches Err(e) ==> (part_of(part@, name@) matches Result::Err(m) && e@ == m),
    decreases whole@.len(), 0int,
{
    let variant = match parse_ratio(part) {
        Ok(v) => v,
        Err(e) => { return Err(invalid_part_message(name, part, e)) },
    };
    match variant.as_val() {
        Ok(v) => Ok(v),
        Err(e) => Err(invalid_part_message(name, part, e)),
    }
}

/// The running state of the number scanner: the saturating mantissa and
/// digit counters of the integer and fraction parts, and the exponent
/// scanner's mode (`0` before the exponent marker, `1` just after it, `2`
/// inside the exponent digits).
pub ghost struct NumScan {
    pub mant: nat,
    pub digits: nat,
    pub dropped: int,
    pub frac_digits: int,
    pub seen_dot: bool,
    pub exp: int,
    pub exp_neg: bool,
    pub any_exp: bool,
    pub mode: int,
    pub lost: bool,
    pub failed: bool,
}

/// The scanner's initial state.
pub open spec fn init_scan() -> NumScan {
    NumScan {
        mant: 0,
        digits: 0,
        dropped: 0,
        frac_digits: 0,
        seen_dot: false,
        exp: 0,
        exp_neg: false,
        any_exp: false,
        mode: 0,
        lost: false,
        failed: false,
    }
}

/// One scanner step: mirrors the number parser's treatment of a single
/// character, including the saturation of the mantissa, the dropped and
/// fraction digit counters and the exponent.
pub open spec fn scan_step(st: NumScan, c: char) -> NumScan {
    if st.failed {
        st
    } else if st.mode == 0 {
        if c == '.' {
            if st.seen_dot {
                NumScan { failed: true, ..st }
            } else {
                NumScan { seen_dot: true, ..st }
            }
        } else if c == 'e' || c == 'E' {
            if st.digits == 0 {
                NumScan { failed: true, ..st }
            } else {
                NumScan { mode: 1, ..st }
            }
        } else {
            match digit_val(c) {
                Option::Some(d) => {
                    if st.mant < 0x100_0000_0000_0000_0000_0000_0000_0000 {
                        NumScan {
                            mant: st.mant * 10 + d as nat,
                            frac_digits: if st.seen_dot && st.frac_digits < 0x1_0000 {
                                st.frac_digits + 1
                            } else {
                                st.frac_digits
                            },
                            digits: st.digits + 1,
                            ..st
                        }
                    } else if !st.seen_dot && st.dropped < 0x1_0000 {
                        NumScan { dropped: st.dropped + 1, digits: st.digits + 1, ..st }
                    } else {
                        NumScan { lost: true, digits: st.digits + 1, ..st }
                    }
                },
                Option::None => NumScan { failed: true, ..st },
            }
        }
    } else if st.mode == 1 {
        if c == '-' {
            NumScan { exp_neg: true, mode: 2, ..st }
        } else if c == '+' {
            NumScan { mode: 2, ..st }
        } else {
            match digit_val(c) {
                Option::Some(d) => NumScan { exp: d, any_exp: true, mode: 2, ..st },
                Option::None => NumScan { failed: true, ..st },
            }
        }
    } else {
        match digit_val(c) {
            Option::Some(d) => NumScan {
                exp: if st.exp < 0x1000 {
                    st.exp * 10 + d
                } else {
                    st.exp
                },
                any_exp: true,
                ..st
            },
            Option::None => NumScan { failed: true, ..st },
        }
    }
}

/// The scanner run over `s[start..i]`.
pub open spec fn scan_upto(s: Seq<char>, start: int, i: int) -> NumScan
    decreases i - start,
{
    if i <= start {
        init_scan()
    } else {
        scan_step(scan_upto(s, start, i - 1), s[i - 1])
    }
}

/// A failed scan stays failed.
proof fn lemma_scan_failed(s: Seq<char>, start: int, i: int, j: int)
    requires
        i <= j,
        scan_upto(s, start, i).failed,
    ensures
        scan_upto(s, start, j).failed,
    decreases j - i,
{
    if i < j {
        lemma_scan_failed(s, start, i, j - 1);
    }
}

/// The value a plain decimal number parses to: the scanner runs past the
/// optional sign; acceptance needs at least one mantissa digit and a
/// complete exponent; the magnitude's logarithm combines the mantissa's
/// with the decimal exponent, and the exact fraction survives while the
/// powers of ten fit.
pub open spec fn number_of(s: Seq<char>) -> Option<Val> {
    if s.len() == 0 {
        Option::None
    } else {
        let neg = s[0] == '-';
        let start: int = if s[0] == '-' || s[0] == '+' {
            1
        } else {
            0
        };
        let st = scan_upto(s, start, s.len() as int);
        if st.failed || st.digits == 0 || st.mode == 1 || (st.mode == 2 && !st.any_exp) {
            Option::None
        } else {
            let exps: int = if st.exp_neg {
                -st.exp
            } else {
                st.exp
            };
            if st.mant == 0 {
                Option::Some(spec_zero(neg))
            } else {
                let e10 = exps + st.dropped - st.frac_digits;
                let log = clip_i64(log2_q52_u128_of(st.mant) + e10 * LOG2_10_RAW);
                if st.lost {
                    Option::Some(
                        Val {
                            class: ValClass::Finite,
                            neg,
                            log: log as i64,
                            num: 0,
                            den: 1,
                            exact: false,
                        },
                    )
                } else if e10 == 0 {
                    Option::Some(
                        Val {
                            class: ValClass::Finite,
                            neg,
                            log: log as i64,
                            num: st.mant as u128,
                            den: 1,
                            exact: true,
                        },
                    )
                } else if 0 < e10 <= 38 {
                    if st.mant * pow10_spec(e10 as nat)
                        <= 0xFFFF_FFFF_FFFF_FFFF_FFFF_FFFF_FFFF_FFFF {
                        Option::Some(
                            Val {
                                class: ValClass::Finite,
                                neg,
                                log: log as i64,
                                num: (st.mant * pow10_spec(e10 as nat)) as u128,
                                den: 1,
                                exact: true,
                            },
                        )
                    } else {
                        Option::Some(
                            Val {
                                class: ValClass::Finite,
                                neg,
                                log: log as i64,
                                num: 0,
                                den: 1,
                                exact: false,
                            },
                        )
                    }
                } else if -38 <= e10 < 0 {
                    Option::Some(
                        Val {
                            class: ValClass::Finite,
                            neg,
                            log: log as i64,
                            num: st.mant as u128,
                            den: pow10_spec((-e10) as nat) as u128,
                            exact: true,
                        },
                    )
                } else {
                    Option::Some(
                        Val {
                            class: ValClass::Finite,
                            neg,
                            log: log as i64,
                            num: 0,
                            den: 1,
                            exact: false,
                        },
                    )
                }
            }
        }
    }
}

/// Parses a plain decimal number: an optional sign, digits with an
/// optional fraction part, and an optional decimal exponent.
fn parse_number(s: &str) -> (r: Option<Val>)
    ensures
        r == number_of(s@),
{
    let n = s.unicode_len();
    if n == 0 {
        return None;
    }
    let mut i: usize = 0;
    let mut neg = false;
    let c0 = s.get_char(0);
    if c0 == '-' {
        neg = true;
        i = 1;
    } else if c0 == '+' {
        i = 1;
    }
    let ghost start0 = i as int;
    let mut mant: u128 = 0;
    let mut digits: usize = 0;
    let mut dropped: i64 = 0;
    let mut frac_digits: i64 = 0;
    let mut seen_dot = false;
    let mut exp: i64 = 0;
    let mut exp_seen = false;
    let mut exp_neg = false;
    let mut lost = false;
    while i < n
        invariant
            start0 <= i <= n,
            n == s@.len(),
            n >= 1,
            digits <= i,
            mant < 0x1000_0000_0000_0000_0000_0000_0000_0000,
            0 <= frac_digits <= 0x1_0000,
            0 <= dropped <= 0x1_0000,
            0 <= exp <= 0x1_0000,
            neg == (s@[0] == '-'),
            start0 == (if s@[0] == '-' || s@[0] == '+' {
                1int
            } else {
                0int
            }),
            !exp_seen ==> exp == 0 && !exp_neg,
            !exp_seen ==> scan_upto(s@, start0, i as int) == (NumScan {
                mant: mant as nat,
                digits: digits as nat,
                dropped: dropped as int,
                frac_digits: frac_digits as int,
                seen_dot,
                exp: 0,
                exp_neg: false,
                any_exp: false,
                mode: 0,
                lost,
                failed: false,
            }),
            exp_seen ==> i == n && scan_upto(s@, start0, n as int) == (NumScan {
                mant: mant as nat,
                digits: digits as nat,
                dropped: dropped as int,
                frac_digits: frac_digits as int,
                seen_dot,
                exp: exp as int,
                exp_neg,
                any_exp: true,
                mode: 2,
                lost,
                failed: false,
            }),
        decreases n - i,
    {
        let ghost st_pre = scan_upto(s@, start0, i as int);
        let c = s.get_char(i);
        proof {
            assert(!exp_seen);
            assert(scan_upto(s@, start0, i + 1) == scan_step(st_pre, s@[i as int]));
        }
        if c == '.' {
            if seen_dot || exp_seen {
                proof {
                    assert(scan_upto(s@, start0, i + 1).failed);
                    lemma_scan_failed(s@, start0, i + 1, n as int);
                }
                return None;
            }
            seen_dot = true;
            i = i + 1;
        } else if c == 'e' || c == 'E' {
            if exp_seen || digits == 0 {
                proof {
                    assert(scan_upto(s@, start0, i + 1).failed);
                    lemma_scan_failed(s@, start0, i + 1, n as int);
                }
                return None;
            }
            exp_seen = true;
            i = i + 1;
            let ghost mut sign_consumed = false;
            if i < n {
                let cs = s.get_char(i);
                proof {
                    assert(scan_upto(s@, start0, i + 1) == scan_step(
                        scan_upto(s@, start0, i as int),
                        s@[i as int],
                    ));
                }
                if cs == '-' {
                    exp_neg = true;
                    i = i + 1;
                    proof {
                        sign_consumed = true;
                    }
                } else if cs == '+' {
                    i = i + 1;
                    proof {
                        sign_consumed = true;
                    }
                }
            }
            if i >= n {
                proof {
                    let st = scan_upto(s@, start0, n as int);
                    assert(st.mode == 1 || (st.mode == 2 && !st.any_exp));
                }
                return None;
            }
            let mut any = false;
            while i < n
                invariant
                    start0 < i <= n,
                    n == s@.len(),
                    0 <= exp <= 0x1_0000,
                    neg == (s@[0] == '-'),
                    start0 == (if s@[0] == '-' || s@[0] == '+' {
                        1int
                    } else {
                        0int
                    }),
                    !any ==> exp == 0,
                    !sign_consumed ==> !exp_neg,
                    !any && !sign_consumed ==> i < n ==> s@[i as int] != '-' && s@[i as int]
                        != '+',
                    !any && !sign_consumed ==> scan_upto(s@, start0, i as int) == (NumScan {
                        mant: mant as nat,
                        digits: digits as nat,
                        dropped: dropped as int,
                        frac_digits: frac_digits as int,
                        seen_dot,
                        exp: 0,
                        exp_neg: false,
                        any_exp: false,
                        mode: 1,
                        lost,
                        failed: false,
                    }),
                    !any && sign_consumed ==> scan_upto(s@, start0, i as int) == (NumScan {
                        mant: mant as nat,
                        digits: digits as nat,
                        dropped: dropped as int,
                        frac_digits: frac_digits as int,
                        seen_dot,
                        exp: 0,
                        exp_neg,
                        any_exp: false,
                        mode: 2,
                        lost,
                        failed: false,
                    }),
                    any ==> scan_upto(s@, start0, i as int) == (NumScan {
                        mant: mant as nat,
                        digits: digits as nat,
                        dropped: dropped as int,
                        frac_digits: frac_digits as int,
                        seen_dot,
                        exp: exp as int,
                        exp_neg,
                        any_exp: true,
                        mode: 2,
                        lost,
                        failed: false,
                    }),
                decreases n - i,
            {
                let cd = s.get_char(i);
                proof {
                    assert(scan_upto(s@, start0, i + 1) == scan_step(
                        scan_upto(s@, start0, i as int),
                        s@[i as int],
                    ));
                }
                match digit_of(cd) {
                    Some(d) => {
                        let ghost st_in = scan_upto(s@, start0, i as int);
                        if exp < 0x1000 {
                            exp = exp * 10 + d as i64;
                        }
                        any = true;
                        proof {
                            let st2 = scan_step(st_in, s@[i as int]);
                            assert(st2.mode == 2);
                            assert(st2.any_exp);
                            assert(st2.failed == false);
                            assert(st2.mant == mant as nat);
                            assert(st2.exp_neg == exp_neg);
                            assert(st2.exp == exp as int);
                        }
                        i = i + 1;
                    },
                    None => {
                        proof {
                            assert(scan_upto(s@, start0, i + 1).failed);
                            lemma_scan_failed(s@, start0, i + 1, n as int);
                        }
                        return None
                    },
                }
            }
            if !any {
                proof {
                    let st = scan_upto(s@, start0, n as int);
                    assert(st.mode == 1 || (st.mode == 2 && !st.any_exp));
                }
                return None;
            }
        } else {
            match digit_of(c) {
                Some(d) => {
                    if mant < 0x100_0000_0000_0000_0000_0000_0000_0000u128 {
                        mant = mant * 10 + d as u128;
                        if seen_dot && frac_digits < 0x1_0000 {
                            frac_digits = frac_digits + 1;
                        }
                    } else {
                        if !seen_dot && dropped < 0x1_0000 {
                            dropped = dropped + 1;
                        } else {
                            lost = true;
                        }
                    }
                    digits = digits + 1;
                    i = i + 1;
                },
                None => {
                    proof {
                        assert(scan_upto(s@, start0, i + 1).failed);
                        lemma_scan_failed(s@, start0, i + 1, n as int);
                    }
                    return None
                },
            }
        }
    }
    if digits == 0 {
        return None;
    }
    if exp_neg {
        exp = -exp;
    }
    if mant == 0 {
        return Some(Val::zero(neg));
    }
    // value = mant * 10^(exp + dropped - frac_digits)
    let e10: i64 = exp + dropped - frac_digits;
    let log_mant = log2_q52_u128(mant);
    proof {
        crate::fx::lemma_i64_mul_bounds(e10 as int, LOG2_10_RAW as int);
    }
    let log = crate::fx::clip_i128_exec(
        log_mant as i128 + (e10 as i128) * (LOG2_10_RAW as i128),
    );
    let (num, den, exact) = if lost {
        (0u128, 1u128, false)
    } else if e10 == 0 {
        (mant, 1u128, true)
    } else if e10 > 0 && e10 <= 38 {
        match mant.checked_mul(pow10(e10 as u32)) {
            Some(nn) => (nn, 1u128, true),
            None => (0u128, 1u128, false),
        }
    } else if e10 < 0 && e10 >= -38 {
        (mant, pow10((-e10) as u32), true)
    } else {
        (0u128, 1u128, false)
    };
    Some(Val { class: ValClass::Finite, neg, log, num, den, exact })
}

/// The decimal digit of a character, if it is one.
pub open spec fn digit_val(c: char) -> Option<int> {
    if c == '0' {
        Option::Some(0int)
    } else if c == '1' {
        Option::Some(1int)
    } else if c == '2' {
        Option::Some(2int)
    } else if c == '3' {
        Option::Some(3int)
    } else if c == '4' {
        Option::Some(4int)
    } else if c == '5' {
        Option::Some(5int)
    } else if c == '6' {
        Option::Some(6int)
    } else if c == '7' {
        Option::Some(7int)
    } else if c == '8' {
        Option::Some(8int)
    } else if c == '9' {
        Option::Some(9int)
    } else {
        Option::None
    }
}

/// The decimal digit of a character.
fn digit_of(c: char) -> (r: Option<u8>)
    ensures
        r matches Some(d) ==> d < 10 && digit_val(c) == Option::Some(d as int),
        r is None <==> digit_val(c) is None,
{
    match c {
        '0' => Some(0),
        '1' => Some(1),
        '2' => Some(2),
        '3' => Some(3),
        '4' => Some(4),
        '5' => Some(5),
        '6' => Some(6),
        '7' => Some(7),
        '8' => Some(8),
        '9' => Some(9),
        _ => None,
    }
}

/// 10^k as a `u128`, for `k <= 38`.
fn pow10(k: u32) -> (r: u128)
    requires
        k <= 38,
    ensures
        r >= 1,
        r == pow10_spec(k as nat),
{
    let mut r: u128 = 1;
    let mut i: u32 = 0;
    while i < k
        invariant
            i <= k <= 38,
            r == pow10_spec(i as nat),
        decreases k - i,
    {
        proof {
            lemma_pow10_bound(i as nat);
            lemma_pow10_bound((i + 1) as nat);
        }
        r = r * 10;
        i = i + 1;
    }
    proof {
        lemma_pow10_pos(k as nat);
    }
    r
}

/// Powers of ten are positive.
proof fn lemma_pow10_pos(k: nat)
    ensures
        pow10_spec(k) >= 1,
    decreases k,
{
    if k > 0 {
        lemma_pow10_pos((k - 1) as nat);
    }
}

/// 10^k.
pub open spec fn pow10_spec(k: nat) -> nat
    decreases k,
{
    if k == 0 {
        1
    } else {
        10 * pow10_spec((k - 1) as nat)
    }
}

/// 10^38 fits in a `u128`.
proof fn lemma_pow10_bound(k: nat)
    requires
        k <= 38,
    ensures
        pow10_spec(k) <= 0x4B3B4CA85A86C47A_098A224000000000,
    decreases k,
{
    reveal_with_fuel(pow10_spec, 39);
}

impl Ratio {
    /// Parses the expression language and keeps only the ratio: success,
    /// the stored logarithm and the error text are exact functions of the
    /// input.
    pub fn parse(s: &str) -> (r: Result<Ratio, String>)
        ensures
            r is Ok <==> parse_accepts(s@),
            r matches Ok(rt) ==> (parse_of(s@) matches Result::Ok(v) && rt.raw == variant_value(
                v,
            ).log),
            r matches Err(m) ==> m@ == parse_err_of(s@),
    {
        match RatioExpression::parse(s) {
            Ok(e) => Ok(e.ratio()),
            Err(m) => Err(m),
        }
    }
}

/// Whether the string carries the frequency suffix `Hz` or `hz`.
pub open spec fn hz_suffix_ok(s: Seq<char>) -> bool {
    &&& s.len() >= 2
    &&& (s[s.len() - 2] == 'H' || s[s.len() - 2] == 'h')
    &&& s[s.len() - 1] == 'z'
}

impl Pitch {
    /// Parses a frequency: a ratio expression followed by `Hz` or `hz`.
    /// Success, the stored logarithm and both error texts are exact
    /// functions of the input.
    pub fn parse(s: &str) -> (r: Result<Pitch, String>)
        ensures
            r is Ok <==> (hz_suffix_ok(s@) && parse_accepts(s@.take(s@.len() - 2))),
            r matches Ok(p) ==> (parse_of(s@.take(s@.len() - 2)) matches Result::Ok(v) && p.raw
                == variant_value(v).log),
            !hz_suffix_ok(s@) ==> (r matches Err(m) && m@ == "Must end with Hz or hz"@),
            hz_suffix_ok(s@) && !parse_accepts(s@.take(s@.len() - 2)) ==> (r matches Err(m) && m@
                == "Invalid frequency: '"@ + s@.take(s@.len() - 2) + "': "@ + parse_err_of(
                s@.take(s@.len() - 2),
            )),
    {
        let n = s.unicode_len();
        let ends_hz = n >= 2 && (s.get_char(n - 2) == 'H' || s.get_char(n - 2) == 'h')
            && s.get_char(n - 1) == 'z';
        if ends_hz {
            let freq = s.substring_char(0, n - 2);
            proof {
                assert(freq@ =~= s@.take(s@.len() - 2));
            }
            match RatioExpression::parse(freq) {
                Ok(e) => Ok(Pitch { raw: e.ratio().raw }),
                Err(m) => {
                    let mut out = "Invalid frequency: '".to_owned();
                    out.append(freq);
                    out.append("': ");
                    out.append(m.as_str());
                    proof {
                        assert(out@ =~= "Invalid frequency: '"@ + s@.take(s@.len() - 2) + "': "@
                            + parse_err_of(s@.take(s@.len() - 2)));
                    }
                    Err(out)
                },
            }
        } else {
            Err("Must end with Hz or hz".to_owned())
        }
    }
}

impl core::str::FromStr for RatioExpression {
    type Err = String;

    /// The only way to construct a validated expression from text.
    fn from_str(s: &str) -> Result<Self, String> {
        RatioExpression::parse(s)
    }
}

impl core::str::FromStr for Ratio {
    type Err = String;

    /// Parses the expression language and keeps only the ratio.
    fn from_str(s: &str) -> Result<Self, String> {
        Ratio::parse(s)
    }
}

impl core::str::FromStr for Pitch {
    type Err = String;

    /// A frequency: a ratio expression followed by `Hz` or `hz`.
    fn from_str(s: &str) -> Result<Self, String> {
        Pitch::parse(s)
    }
}

/// `log2` of a wide integer, in raw units of 2^-52 octaves, truncated.
pub open spec fn log2_q52_u128_of(x: nat) -> int {
    (127 - crate::pitch::norm_s_128(x)) * crate::pitch::OCTAVE_RAW + crate::kernel::log2_bits(
        (x * crate::kernel::two_pow(crate::pitch::norm_s_128(x))) / 0x1_0000_0000_0000_0000,
        63,
    ) / 0x800
}

/// `log2` of a wide integer, in raw units.
fn log2_q52_u128(x: u128) -> (r: i64)
    requires
        1 <= x < 0x8000_0000_0000_0000_0000_0000_0000_0000,
    ensures
        0 <= r < 128 * crate::pitch::OCTAVE_RAW,
        r == log2_q52_u128_of(x as nat),
{
    let (m, s) = crate::pitch::norm_u128(x);
    proof {
        crate::pitch::lemma_norm_s_128_char(x as nat);
        crate::pitch::lemma_norm_shift_unique_128(
            x as nat,
            s as nat,
            crate::pitch::norm_s_128(x as nat),
        );
    }
    let f = crate::kernel::log2_frac(m);
    (127 - s as i64) * crate::pitch::OCTAVE_RAW + (f / 0x800) as i64
}

} // verus!
