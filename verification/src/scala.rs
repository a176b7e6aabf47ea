//! Scales and keyboard mappings: how a scale degree becomes a pitch.

use vstd::prelude::*;

use crate::fx::clip_i64;
use crate::pitch::{stretch_spec, Pitch, Ratio};

verus! {

/// An ordered finite list of ratios defining the steps within one period,
/// plus the period itself (usually an octave).
pub struct Scl {
    pub period: Ratio,
    pub steps: Vec<Ratio>,
}

/// Well-formedness of a scale: it has at least one step and a sane size.
pub open spec fn scl_wf(s: Scl) -> bool {
    1 <= s.steps@.len() <= 0x1000
}

/// A keyboard mapping root: the reference key, its pitch, and the degree
/// offset of the scale's root.
#[derive(Clone, Copy, PartialEq, Eq, Structural, Debug)]
pub struct KbmRoot {
    pub ref_key: i32,
    pub ref_pitch: Pitch,
    pub root_offset: i32,
}

/// The scale ratio of a degree relative to the root: whole periods for
/// the quotient, the step ratio for the remainder (the zeroth step being
/// the unison).
pub open spec fn scale_ratio_spec(s: Scl, d: int) -> int {
    let n = s.steps@.len() as int;
    let octaves = d / n;
    let idx = d % n;
    let step = if idx == 0 {
        0int
    } else {
        s.steps@[idx - 1].raw as int
    };
    stretch_spec(clip_i64(s.period.raw * octaves), step)
}

impl Scl {
    /// The ratio of `degree` steps above (or below) the root.
    pub fn ratio_of(&self, degree: i32) -> (r: Ratio)
        requires
            scl_wf(*self),
        ensures
            r.raw == scale_ratio_spec(*self, degree as int),
    {
        let n = self.steps.len();
        let (octaves, idx) = floor_div_rem_i32(degree, n as i32);
        proof {
            crate::fx::lemma_i64_mul_bounds(self.period.raw as int, octaves as int);
        }
        let base = crate::fx::clip_i128_exec((self.period.raw as i128) * (octaves as i128));
        let step = if idx == 0 {
            Ratio { raw: 0 }
        } else {
            self.steps[(idx - 1) as usize]
        };
        Ratio { raw: base }.stretched_by(step)
    }

    /// The number of steps in one period.
    pub fn num_items(&self) -> (r: usize)
        ensures
            r == self.steps@.len(),
    {
        self.steps.len()
    }
}

/// The pitch of a scale degree under a mapping: the reference pitch
/// stretched by the scale ratio of the degree relative to the reference
/// key and root offset.
pub open spec fn pitch_of_spec(s: Scl, k: KbmRoot, degree: int) -> int {
    stretch_spec(
        k.ref_pitch.raw as int,
        scale_ratio_spec(s, degree - k.ref_key + k.root_offset),
    )
}

/// Converts a degree to a pitch.
pub fn pitch_of(s: &Scl, k: &KbmRoot, degree: i32) -> (r: Pitch)
    requires
        scl_wf(*s),
        -0x10_0000 <= degree - k.ref_key + k.root_offset <= 0x10_0000,
    ensures
        r.raw == pitch_of_spec(*s, *k, degree as int),
{
    let d: i64 = degree as i64 - k.ref_key as i64 + k.root_offset as i64;
    let ratio = s.ratio_of(d as i32);
    k.ref_pitch.mul_ratio(ratio)
}

/// Floor division and nonnegative remainder of an `i32` degree by the
/// scale size.
fn floor_div_rem_i32(a: i32, n: i32) -> (r: (i32, i32))
    requires
        1 <= n <= 0x1000,
    ensures
        r.0 == (a as int) / (n as int),
        r.1 == (a as int) % (n as int),
        0 <= r.1 < n,
        -0x8000_0000 / 1 <= r.0,
{
    let (q, m) = floor_div_rem_i64(a as i64, n as i64);
    ((q as i32), (m as i32))
}

/// Floor division over `i64`.
fn floor_div_rem_i64(a: i64, n: i64) -> (r: (i64, i64))
    requires
        1 <= n <= 0x1000,
        -0x8000_0000 <= a <= 0x7FFF_FFFF,
    ensures
        r.0 == (a as int) / (n as int),
        r.1 == (a as int) % (n as int),
        0 <= r.1 < n,
        -0x8000_0000 <= r.0 <= 0x7FFF_FFFF,
{
    if n == 1 {
        proof {
            vstd::arithmetic::div_mod::lemma_fundamental_div_mod_converse(a as int, 1, a as int, 0);
        }
        return (a, 0);
    }
    if a >= 0 {
        let q = ((a as u64) / (n as u64)) as i64;
        let m = ((a as u64) % (n as u64)) as i64;
        proof {
            vstd::arithmetic::div_mod::lemma_div_is_ordered(a as int, 0x7FFF_FFFF, n as int);
            vstd::arithmetic::div_mod::lemma_div_pos_is_pos(a as int, n as int);
        }
        proof {
            assert(m == (a as int) % (n as int));
        }
        (q, m)
    } else {
        let mag = (-(a as i128)) as u128;
        let q0 = (mag / (n as u128)) as i64;
        let m0 = (mag % (n as u128)) as i64;
        proof {
            vstd::arithmetic::div_mod::lemma_div_is_ordered(
                mag as int,
                0x8000_0000,
                n as int,
            );
            vstd::arithmetic::div_mod::lemma_div_is_ordered_by_denominator(
                mag as int,
                2,
                n as int,
            );
            crate::pitch::lemma_floor_div_neg(a as int, n as int, q0 as int, m0 as int);
            vstd::arithmetic::div_mod::lemma_fundamental_div_mod(a as int, n as int);
        }
        if m0 == 0 {
            proof {
                assert((a as int) % (n as int) == 0);
            }
            (-q0, 0)
        } else {
            proof {
                assert((a as int) % (n as int) == n - m0);
            }
            (-q0 - 1, n - m0)
        }
    }
}

} // verus!
