//! Stateless oscillator shape functions.
//!
//! A phase is a `u64` covering one full period: the value `phase / 2^64` is
//! the normalized phase in `[0, 1)`.  Every shape returns an [`Fx`] sample in
//! `[-1, 1]`.  The piecewise-linear shapes (triangle, square, sawtooth) are
//! exact; the sine goes through the polynomial kernel and is accurate to
//! well below one part in 10^9.

use vstd::prelude::*;

use crate::fx::{clip_i64, div_trunc, Fx, FX_ONE_RAW};
use crate::kernel;
use crate::kernel::{sin_quarter_spec, ONE_Q62, PI_HALF_Q62};

verus! {

/// Quarter period in Q64 phase units.
pub const QUARTER_PHASE: u64 = 0x4000_0000_0000_0000;

/// Half period in Q64 phase units.
pub const HALF_PHASE: u64 = 0x8000_0000_0000_0000;

/// Raw Q32.32 result of `sin(2·pi·phase/2^64)`.
///
/// The phase is split into a quadrant and a quarter-phase offset; the offset
/// is mapped to an angle in `[0, pi/2]` and handed to the polynomial kernel,
/// with the sign and direction of the quadrant applied.
#[verifier::opaque]
pub open spec fn sin_spec(phase: u64) -> int {
    let q = phase / QUARTER_PHASE;
    let t = phase % QUARTER_PHASE;
    let u = if q == 0 || q == 2 {
        t as int
    } else {
        QUARTER_PHASE - t
    };
    let x = (u * PI_HALF_Q62) / (ONE_Q62 as int);
    let mag = sin_quarter_spec(x) / 0x4000_0000;
    if q < 2 {
        mag
    } else {
        -mag
    }
}

/// Sine shape: `sin(2·pi·phase)`.
pub fn sin(phase: u64) -> (r: Fx)
    ensures
        r.raw == sin_spec(phase),
        -FX_ONE_RAW <= r.raw <= FX_ONE_RAW,
{
    proof {
        reveal(sin_spec);
    }
    let q: u64 = phase / QUARTER_PHASE;
    let t: u64 = phase % QUARTER_PHASE;
    let u: u64 = if q == 0 || q == 2 {
        t
    } else {
        QUARTER_PHASE - t
    };
    proof {
        kernel::lemma_mul_le(u as int, PI_HALF_Q62 as int, ONE_Q62 as int, PI_HALF_Q62 as int);
        vstd::arithmetic::div_mod::lemma_div_is_ordered(
            (u as int) * (PI_HALF_Q62 as int),
            (ONE_Q62 as int) * (PI_HALF_Q62 as int),
            ONE_Q62 as int,
        );
        vstd::arithmetic::div_mod::lemma_div_multiples_vanish(
            PI_HALF_Q62 as int,
            ONE_Q62 as int,
        );
    }
    let x: u64 = ((u as u128) * (PI_HALF_Q62 as u128) / (ONE_Q62 as u128)) as u64;
    let mag: u64 = kernel::sin_quarter(x) / 0x4000_0000;
    if q < 2 {
        Fx { raw: mag as i64 }
    } else {
        Fx { raw: -(mag as i64) }
    }
}

/// Raw Q32.32 result of cubing a raw sample, with the truncation of
/// [`Fx::mul`] applied at each step.
pub open spec fn cube_spec(s: int) -> int {
    let sq = clip_i64(div_trunc(s * s, FX_ONE_RAW as int));
    clip_i64(div_trunc(sq * s, FX_ONE_RAW as int))
}

/// Cubed sine shape: `sin(2·pi·phase)^3`.
pub fn sin3(phase: u64) -> (r: Fx)
    ensures
        r.raw == cube_spec(sin_spec(phase)),
        -FX_ONE_RAW <= r.raw <= FX_ONE_RAW,
{
    let s = sin(phase);
    proof {
        lemma_cube_range(s.raw as int);
    }
    s.mul(s).mul(s)
}

/// Cubing a sample in `[-1, 1]` keeps it in `[-1, 1]`.
proof fn lemma_cube_range(s: int)
    requires
        -FX_ONE_RAW <= s <= FX_ONE_RAW,
    ensures
        -FX_ONE_RAW <= cube_spec(s) <= FX_ONE_RAW,
{
    assert(0 <= s * s <= 0x1_0000_0000_0000_0000) by (nonlinear_arith)
        requires
            -0x1_0000_0000 <= s <= 0x1_0000_0000,
    ;
    vstd::arithmetic::div_mod::lemma_div_is_ordered(s * s, 0x1_0000_0000_0000_0000, 0x1_0000_0000);
    vstd::arithmetic::div_mod::lemma_div_pos_is_pos(s * s, 0x1_0000_0000);
    let sq = clip_i64(div_trunc(s * s, FX_ONE_RAW as int));
    assert(0 <= sq <= FX_ONE_RAW);
    assert(-0x1_0000_0000_0000_0000 <= sq * s <= 0x1_0000_0000_0000_0000) by (nonlinear_arith)
        requires
            0 <= sq <= 0x1_0000_0000,
            -0x1_0000_0000 <= s <= 0x1_0000_0000,
    ;
    if sq * s >= 0 {
        vstd::arithmetic::div_mod::lemma_div_is_ordered(
            sq * s,
            0x1_0000_0000_0000_0000,
            0x1_0000_0000,
        );
        vstd::arithmetic::div_mod::lemma_div_pos_is_pos(sq * s, 0x1_0000_0000);
    } else {
        vstd::arithmetic::div_mod::lemma_div_is_ordered(
            -(sq * s),
            0x1_0000_0000_0000_0000,
            0x1_0000_0000,
        );
        vstd::arithmetic::div_mod::lemma_div_pos_is_pos(-(sq * s), 0x1_0000_0000);
    }
}

/// Raw Q32.32 result of the triangle shape `4·|phase/2^64 - 1/2| - 1`.
pub open spec fn triangle_spec(phase: u64) -> int {
    let d = if phase >= HALF_PHASE {
        phase - HALF_PHASE
    } else {
        HALF_PHASE - phase
    };
    d / 0x4000_0000 - FX_ONE_RAW
}

/// Triangle shape.
pub fn triangle(phase: u64) -> (r: Fx)
    ensures
        r.raw == triangle_spec(phase),
        -FX_ONE_RAW <= r.raw <= FX_ONE_RAW,
{
    let d: u64 = if phase >= HALF_PHASE {
        phase - HALF_PHASE
    } else {
        HALF_PHASE - phase
    };
    Fx { raw: (d / 0x4000_0000) as i64 - FX_ONE_RAW }
}

/// Raw Q32.32 result of the square shape `sign(1/2 - phase/2^64)`.
pub open spec fn square_spec(phase: u64) -> int {
    if phase <= HALF_PHASE {
        FX_ONE_RAW as int
    } else {
        -FX_ONE_RAW as int
    }
}

/// Square shape.
pub fn square(phase: u64) -> (r: Fx)
    ensures
        r.raw == square_spec(phase),
        -FX_ONE_RAW <= r.raw <= FX_ONE_RAW,
{
    if phase <= HALF_PHASE {
        Fx { raw: FX_ONE_RAW }
    } else {
        Fx { raw: -FX_ONE_RAW }
    }
}

/// Raw Q32.32 result of the sawtooth shape `2·phase/2^64 - 1`.
pub open spec fn sawtooth_spec(phase: u64) -> int {
    phase / 0x8000_0000 - FX_ONE_RAW
}

/// Sawtooth shape.
pub fn sawtooth(phase: u64) -> (r: Fx)
    ensures
        r.raw == sawtooth_spec(phase),
        -FX_ONE_RAW <= r.raw <= FX_ONE_RAW,
{
    Fx { raw: (phase / 0x8000_0000) as i64 - FX_ONE_RAW }
}

} // verus!
