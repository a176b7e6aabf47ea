//! Filter and ring-modulator stages.
//!
//! A filter reads one buffer, transforms it sample by sample and adds the
//! scaled result into its destination.  Coefficients are computed once per
//! block from the low-frequency sources; the per-sample transfer is pinned
//! down by [`filt_out_at`] and [`filt_memory_at`], which mirror the
//! executable arithmetic exactly.

use vstd::prelude::*;

use crate::buffer::{InBufferSpec, Magnetron, OutBufferSpec};
use crate::fx::{clip_i64, fx_add, fx_mul, fx_sub, Fx, FX_ONE_RAW};
use crate::oscillator::{dest_at, in_samples, in_sel_wf};
use crate::source::{
    av_states, av_value, av_wf, ctx_wf, next, AutomatedValue, LfSource, RenderContext,
};

verus! {

/// `2·pi·log2(e)` in Q32.32: the factor that turns a cutoff in Hz per
/// sample rate into the base-2 exponent of a one-pole decay.
pub const TAU_LOG2E_RAW: i64 = 38932677166;

/// The filter flavors of a stage specification.
pub enum FilterKind {
    /// Clamps each sample to `[-limit, limit]`.
    Clip { limit: LfSource },
    /// Cubes each sample.
    Pow3,
    /// One-pole low-pass with the given cutoff frequency in Hz.
    LowPass { cutoff: LfSource },
    /// One-pole high-pass with the given cutoff frequency in Hz.
    HighPass { cutoff: LfSource },
    /// Biquad low-pass with center frequency `resonance` and quality `quality`.
    LowPass2 { resonance: LfSource, quality: LfSource },
    /// Biquad high-pass with center frequency `resonance` and quality `quality`.
    HighPass2 { resonance: LfSource, quality: LfSource },
}

/// Specification of one filter stage.
pub struct Filter {
    pub kind: FilterKind,
    pub in_buffer: InBufferSpec,
    pub out_spec: crate::waveform::OutSpec,
}

/// Specification of one ring-modulator stage: the two sources are
/// multiplied sample by sample.
pub struct RingModulator {
    pub in_buffers: (InBufferSpec, InBufferSpec),
    pub out_spec: crate::waveform::OutSpec,
}

/// The compiled filter flavor of a live stage.
pub enum FilterKindStage {
    Clip { limit: AutomatedValue },
    Pow3,
    LowPass { cutoff: AutomatedValue },
    HighPass { cutoff: AutomatedValue },
    LowPass2 { resonance: AutomatedValue, quality: AutomatedValue },
    HighPass2 { resonance: AutomatedValue, quality: AutomatedValue },
}

/// A live filter stage.
pub struct FilterStage {
    pub kind: FilterKindStage,
    pub in_buffer: InBufferSpec,
    pub out_buffer: OutBufferSpec,
    pub out_level: AutomatedValue,
    pub states: Vec<u64>,
    pub memory: FilterMemory,
}

/// The per-sample memory of a filter: previous inputs and outputs.
#[derive(Clone, Copy, PartialEq, Eq, Structural, Debug)]
pub struct FilterMemory {
    pub x1: Fx,
    pub x2: Fx,
    pub y1: Fx,
    pub y2: Fx,
}

impl FilterMemory {
    /// Memory with all taps at zero.
    pub fn zero() -> (r: FilterMemory)
        ensures
            r == (FilterMemory {
                x1: Fx { raw: 0 },
                x2: Fx { raw: 0 },
                y1: Fx { raw: 0 },
                y2: Fx { raw: 0 },
            }),
    {
        FilterMemory { x1: Fx { raw: 0 }, x2: Fx { raw: 0 }, y1: Fx { raw: 0 }, y2: Fx { raw: 0 } }
    }
}

/// The per-block coefficient record a filter runs with.
#[derive(Clone, Copy, PartialEq, Eq, Structural, Debug)]
pub enum FiltCo {
    Clip { limit: i64 },
    Pow3,
    OnePole { alpha: i64, high: bool },
    Biquad { b0: i64, b1: i64, b2: i64, a1: i64, a2: i64 },
}

/// One filter step: the output sample for input `x` in memory state `m`.
pub open spec fn filt_step_out(c: FiltCo, m: FilterMemory, x: int) -> int {
    match c {
        FiltCo::Clip { limit } => {
            let lo = if x < -limit {
                -limit as int
            } else {
                x
            };
            if lo > limit {
                limit as int
            } else {
                lo
            }
        },
        FiltCo::Pow3 => fx_mul(fx_mul(x, x), x),
        FiltCo::OnePole { alpha, high } => {
            let y = fx_add(m.y1.raw as int, fx_mul(alpha as int, fx_sub(x, m.y1.raw as int)));
            if high {
                fx_sub(x, y)
            } else {
                y
            }
        },
        FiltCo::Biquad { b0, b1, b2, a1, a2 } => fx_sub(
            fx_sub(
                fx_add(
                    fx_add(fx_mul(b0 as int, x), fx_mul(b1 as int, m.x1.raw as int)),
                    fx_mul(b2 as int, m.x2.raw as int),
                ),
                fx_mul(a1 as int, m.y1.raw as int),
            ),
            fx_mul(a2 as int, m.y2.raw as int),
        ),
    }
}

/// One filter step: the memory after consuming input `x`.
pub open spec fn filt_step_mem(c: FiltCo, m: FilterMemory, x: int) -> FilterMemory {
    match c {
        FiltCo::Clip { .. } => m,
        FiltCo::Pow3 => m,
        FiltCo::OnePole { alpha, .. } => FilterMemory {
            y1: Fx {
                raw: fx_add(m.y1.raw as int, fx_mul(alpha as int, fx_sub(x, m.y1.raw as int)))
                    as i64,
            },
            ..m
        },
        FiltCo::Biquad { .. } => FilterMemory {
            x1: Fx { raw: x as i64 },
            x2: m.x1,
            y1: Fx { raw: filt_step_out(c, m, x) as i64 },
            y2: m.y1,
        },
    }
}

/// The memory before processing sample `i` of the block.
pub open spec fn filt_memory_at(c: FiltCo, m0: FilterMemory, inputs: Seq<i64>, i: nat) -> FilterMemory
    decreases i,
{
    if i == 0 {
        m0
    } else {
        let prev = filt_memory_at(c, m0, inputs, (i - 1) as nat);
        filt_step_mem(c, prev, inputs[i - 1] as int)
    }
}

/// The output sample the filter produces at index `i`.
pub open spec fn filt_out_at(c: FiltCo, m0: FilterMemory, inputs: Seq<i64>, i: nat) -> int {
    filt_step_out(c, filt_memory_at(c, m0, inputs, i), inputs[i as int] as int)
}

/// Executes one filter step on the memory, returning the output sample.
fn filt_step(c: &FiltCo, m: &mut FilterMemory, x: Fx) -> (r: Fx)
    ensures
        r.raw == filt_step_out(*c, *old(m), x.raw as int),
        *final(m) == filt_step_mem(*c, *old(m), x.raw as int),
{
    match c {
        FiltCo::Clip { limit } => {
            let neg = Fx { raw: *limit }.neg();
            let lo = if x.lt(neg) {
                neg
            } else {
                x
            };
            proof {
                assert(neg.raw == clip_i64(-(*limit) as int));
                assert(-(*limit) as int >= -0x7FFF_FFFF_FFFF_FFFFint - 1);
            }
            let hi = Fx { raw: *limit };
            if hi.lt(lo) {
                hi
            } else {
                lo
            }
        },
        FiltCo::Pow3 => x.mul(x).mul(x),
        FiltCo::OnePole { alpha, high } => {
            let y = m.y1.add(Fx { raw: *alpha }.mul(x.sub(m.y1)));
            m.y1 = y;
            if *high {
                x.sub(y)
            } else {
                y
            }
        },
        FiltCo::Biquad { b0, b1, b2, a1, a2 } => {
            let out = Fx { raw: *b0 }.mul(x).add(Fx { raw: *b1 }.mul(m.x1)).add(
                Fx { raw: *b2 }.mul(m.x2),
            ).sub(Fx { raw: *a1 }.mul(m.y1)).sub(Fx { raw: *a2 }.mul(m.y2));
            m.x2 = m.x1;
            m.x1 = x;
            m.y2 = m.y1;
            m.y1 = out;
            out
        },
    }
}

/// Well-formedness of a live filter stage.
pub open spec fn filt_wf(s: FilterStage, num_buffers: nat) -> bool {
    &&& av_wf(s.out_level, s.states@.len())
    &&& match s.kind {
        FilterKindStage::Clip { limit } => av_wf(limit, s.states@.len()),
        FilterKindStage::Pow3 => true,
        FilterKindStage::LowPass { cutoff } => av_wf(cutoff, s.states@.len()),
        FilterKindStage::HighPass { cutoff } => av_wf(cutoff, s.states@.len()),
        FilterKindStage::LowPass2 { resonance, quality } => av_wf(resonance, s.states@.len())
            && av_wf(quality, s.states@.len()),
        FilterKindStage::HighPass2 { resonance, quality } => av_wf(resonance, s.states@.len())
            && av_wf(quality, s.states@.len()),
    }
    &&& (s.out_buffer matches OutBufferSpec::Buffer(j) ==> j < num_buffers)
    &&& in_sel_wf(s.in_buffer, s.out_buffer, num_buffers)
}

/// The one-pole smoothing factor for a cutoff frequency:
/// `1 - 2^(-cutoff·sample_width·2·pi·log2(e))`, clamped to `[0, 1]`.
pub open spec fn one_pole_alpha(cutoff: int, sw: int) -> int {
    let ex = fx_mul(fx_mul(cutoff, sw), TAU_LOG2E_RAW as int);
    let clamped = crate::source::clamp_exp(-ex);
    crate::fx::fx_clamp01(FX_ONE_RAW - crate::pitch::exp2_fx_of(clamped))
}

/// Computes the one-pole smoothing factor.
pub fn compute_one_pole_alpha(cutoff: Fx, sw: Fx) -> (r: Fx)
    ensures
        r.raw == one_pole_alpha(cutoff.raw as int, sw.raw as int),
{
    let ex = cutoff.mul(sw).mul(Fx { raw: TAU_LOG2E_RAW });
    let negex = ex.neg();
    let clamped = if negex.raw >= 0x4000_0000_0000_0000 {
        Fx { raw: 0x3FFF_FFFF_FFFF_FFFF }
    } else if negex.raw <= -0x4000_0000_0000_0000 {
        Fx { raw: -0x3FFF_FFFF_FFFF_FFFF }
    } else {
        negex
    };
    proof {
        assert(clamped.raw == crate::source::clamp_exp(-(ex.raw as int))) by {
            assert(negex.raw == clip_i64(-(ex.raw as int)));
        }
    }
    let e = crate::pitch::exp2_fx(clamped);
    Fx { raw: FX_ONE_RAW }.sub(e).clamp01()
}

/// The normalized biquad coefficients of the RBJ cookbook, for a given
/// sine and cosine of the angular frequency and smoothing `alpha`; a
/// degenerate normalizer falls back to a pass-through.
pub open spec fn biquad_co(low: bool, sn: int, cs: int, alpha: int) -> FiltCo {
    let a0 = fx_add(FX_ONE_RAW as int, alpha);
    if a0 == 0 {
        FiltCo::Biquad { b0: FX_ONE_RAW, b1: 0, b2: 0, a1: 0, a2: 0 }
    } else {
        let a1 = crate::fx::fx_div(fx_mul(-2 * FX_ONE_RAW as int, cs), a0);
        let a2 = crate::fx::fx_div(fx_sub(FX_ONE_RAW as int, alpha), a0);
        if low {
            let b1 = crate::fx::fx_div(fx_sub(FX_ONE_RAW as int, cs), a0);
            let b0 = fx_mul(b1, FX_ONE_RAW as int / 2);
            FiltCo::Biquad { b0: b0 as i64, b1: b1 as i64, b2: b0 as i64, a1: a1 as i64, a2: a2 as i64 }
        } else {
            let s = crate::fx::fx_div(fx_add(FX_ONE_RAW as int, cs), a0);
            let b0 = fx_mul(s, FX_ONE_RAW as int / 2);
            FiltCo::Biquad {
                b0: b0 as i64,
                b1: clip_i64(-s) as i64,
                b2: b0 as i64,
                a1: a1 as i64,
                a2: a2 as i64,
            }
        }
    }
}

/// Computes the biquad coefficients for a center frequency and quality.
fn compute_biquad(low: bool, resonance: Fx, quality: Fx, sw: Fx) -> (r: FiltCo)
    ensures
        ({
            let ph = crate::source::phase_inc(resonance.raw as int, sw.raw as int);
            let sn = crate::functions::sin_spec(ph as u64);
            let cs = crate::functions::sin_spec(
                ((ph + 0x4000_0000_0000_0000) % 0x1_0000_0000_0000_0000) as u64,
            );
            let twoq = fx_mul(2 * FX_ONE_RAW as int, quality.raw as int);
            let alpha = if twoq == 0 {
                0int
            } else {
                crate::fx::fx_div(sn, twoq)
            };
            r == biquad_co(low, sn, cs, alpha)
        }),
{
    proof {
        crate::fx::lemma_i64_mul_bounds(resonance.raw as int, sw.raw as int);
    }
    let wide: i128 = (resonance.raw as i128) * (sw.raw as i128);
    let ph = crate::source::wrap_to_u64(wide);
    let sn = crate::functions::sin(ph);
    let cs = crate::functions::sin(ph.wrapping_add(0x4000_0000_0000_0000));
    proof {
        reveal(crate::source::shape_value);
    }
    let twoq = Fx { raw: 2 * FX_ONE_RAW }.mul(quality);
    let alpha = if twoq.is_zero() {
        Fx { raw: 0 }
    } else {
        sn.div(twoq)
    };
    let a0 = Fx { raw: FX_ONE_RAW }.add(alpha);
    if a0.is_zero() {
        FiltCo::Biquad { b0: FX_ONE_RAW, b1: 0, b2: 0, a1: 0, a2: 0 }
    } else {
        let a1 = Fx { raw: -2 * FX_ONE_RAW }.mul(cs).div(a0);
        let a2 = Fx { raw: FX_ONE_RAW }.sub(alpha).div(a0);
        if low {
            let b1 = Fx { raw: FX_ONE_RAW }.sub(cs).div(a0);
            let b0 = b1.mul(Fx { raw: FX_ONE_RAW / 2 });
            FiltCo::Biquad { b0: b0.raw, b1: b1.raw, b2: b0.raw, a1: a1.raw, a2: a2.raw }
        } else {
            let s = Fx { raw: FX_ONE_RAW }.add(cs).div(a0);
            let b0 = s.mul(Fx { raw: FX_ONE_RAW / 2 });
            FiltCo::Biquad { b0: b0.raw, b1: s.neg().raw, b2: b0.raw, a1: a1.raw, a2: a2.raw }
        }
    }
}

impl FilterStage {
    /// The coefficient record of the block, given the values the parameter
    /// sources produced.
    pub open spec fn coeffs_spec(self, st0: Seq<u64>, ctx: RenderContext) -> FiltCo {
        match self.kind {
            FilterKindStage::Clip { limit } => FiltCo::Clip {
                limit: av_value(limit, st0, ctx) as i64,
            },
            FilterKindStage::Pow3 => FiltCo::Pow3,
            FilterKindStage::LowPass { cutoff } => FiltCo::OnePole {
                alpha: one_pole_alpha(av_value(cutoff, st0, ctx), ctx.sample_width.raw as int)
                    as i64,
                high: false,
            },
            FilterKindStage::HighPass { cutoff } => FiltCo::OnePole {
                alpha: one_pole_alpha(av_value(cutoff, st0, ctx), ctx.sample_width.raw as int)
                    as i64,
                high: true,
            },
            FilterKindStage::LowPass2 { resonance, quality } => {
                let vr = av_value(resonance, st0, ctx);
                let st1 = av_states(resonance, st0, ctx);
                let vq = av_value(quality, st1, ctx);
                biquad_from_params(true, vr, vq, ctx.sample_width.raw as int)
            },
            FilterKindStage::HighPass2 { resonance, quality } => {
                let vr = av_value(resonance, st0, ctx);
                let st1 = av_states(resonance, st0, ctx);
                let vq = av_value(quality, st1, ctx);
                biquad_from_params(false, vr, vq, ctx.sample_width.raw as int)
            },
        }
    }

    /// The slot states after the parameter sources were sampled.
    pub open spec fn param_states_spec(self, st0: Seq<u64>, ctx: RenderContext) -> Seq<u64> {
        match self.kind {
            FilterKindStage::Clip { limit } => av_states(limit, st0, ctx),
            FilterKindStage::Pow3 => st0,
            FilterKindStage::LowPass { cutoff } => av_states(cutoff, st0, ctx),
            FilterKindStage::HighPass { cutoff } => av_states(cutoff, st0, ctx),
            FilterKindStage::LowPass2 { resonance, quality } => av_states(
                quality,
                av_states(resonance, st0, ctx),
                ctx,
            ),
            FilterKindStage::HighPass2 { resonance, quality } => av_states(
                quality,
                av_states(resonance, st0, ctx),
                ctx,
            ),
        }
    }

    /// Renders one block: coefficients and level are computed once, then
    /// every input sample runs through the filter step and is added, scaled,
    /// into the destination.
    #[verifier::rlimit(100)]
    pub fn render(self, pool: &mut Magnetron, ctx: &RenderContext) -> (r: FilterStage)
        requires
            old(pool).wf(),
            filt_wf(self, old(pool).num_buffers()),
            ctx_wf(*ctx),
        ensures
            filt_wf(r, final(pool).num_buffers()),
            filt_render_rel(self, r, *old(pool), *final(pool), *ctx),
    {
        let FilterStage { kind, in_buffer, out_buffer, out_level, mut states, mut memory } = self;
        let ghost st0 = states@;
        let co: FiltCo = match &kind {
            FilterKindStage::Clip { limit } => {
                let v = next(limit, &mut states, ctx);
                FiltCo::Clip { limit: v.raw }
            },
            FilterKindStage::Pow3 => FiltCo::Pow3,
            FilterKindStage::LowPass { cutoff } => {
                let v = next(cutoff, &mut states, ctx);
                FiltCo::OnePole { alpha: compute_one_pole_alpha(v, ctx.sample_width).raw, high: false }
            },
            FilterKindStage::HighPass { cutoff } => {
                let v = next(cutoff, &mut states, ctx);
                FiltCo::OnePole { alpha: compute_one_pole_alpha(v, ctx.sample_width).raw, high: true }
            },
            FilterKindStage::LowPass2 { resonance, quality } => {
                let vr = next(resonance, &mut states, ctx);
                let vq = next(quality, &mut states, ctx);
                compute_biquad(true, vr, vq, ctx.sample_width)
            },
            FilterKindStage::HighPass2 { resonance, quality } => {
                let vr = next(resonance, &mut states, ctx);
                let vq = next(quality, &mut states, ctx);
                compute_biquad(false, vr, vq, ctx.sample_width)
            },
        };
        proof {
            assert(co == self.coeffs_spec(st0, *ctx));
            assert(states@ == self.param_states_spec(st0, *ctx));
        }
        let lvl = next(&out_level, &mut states, ctx);
        let ghost inputs = in_samples(*old(pool), in_buffer);
        let ghost mem0 = memory;
        let n = pool.len();
        let mut i: usize = 0;
        while i < n
            invariant
                pool.wf(),
                n == pool.spec_block_len(),
                i <= n,
                pool.num_buffers() == old(pool).num_buffers(),
                pool.audio_in_view() == old(pool).audio_in_view(),
                pool.total_view() == old(pool).total_view(),
                (out_buffer matches OutBufferSpec::Buffer(j) ==> j < pool.num_buffers()),
                in_sel_wf(in_buffer, out_buffer, pool.num_buffers()),
                inputs == in_samples(*old(pool), in_buffer),
                memory == filt_memory_at(co, mem0, inputs, i as nat),
                forall|k: int|
                    0 <= k < i ==> #[trigger] dest_at(*pool, out_buffer)[k] == clip_i64(
                        dest_at(*old(pool), out_buffer)[k] + fx_mul(
                            lvl.raw as int,
                            filt_out_at(co, mem0, inputs, k as nat),
                        ),
                    ),
                forall|k: int|
                    i <= k < n ==> #[trigger] dest_at(*pool, out_buffer)[k] == dest_at(
                        *old(pool),
                        out_buffer,
                    )[k],
                forall|j: int|
                    0 <= j < pool.num_buffers() && !(out_buffer matches OutBufferSpec::Buffer(k)
                        && k == j) ==> #[trigger] pool.buffer_at(j) == old(pool).buffer_at(j),
                (out_buffer matches OutBufferSpec::Buffer(_) ==> pool.voice_out_view() == old(
                    pool,
                ).voice_out_view()),
            decreases n - i,
        {
            let x = pool.read(in_buffer, i);
            proof {
                assert(x.raw == inputs[i as int]);
            }
            let out = filt_step(&co, &mut memory, x);
            let ghost pool_before = *pool;
            pool.add(out_buffer, i, lvl.mul(out));
            proof {
                assert(dest_at(*pool, out_buffer) == dest_at(pool_before, out_buffer).update(
                    i as int,
                    clip_i64(
                        dest_at(pool_before, out_buffer)[i as int] + fx_mul(
                            lvl.raw as int,
                            filt_out_at(co, mem0, inputs, i as nat),
                        ),
                    ) as i64,
                ));
            }
            i = i + 1;
        }
        FilterStage { kind, in_buffer, out_buffer, out_level, states, memory }
    }
}


/// The exact block-render relation of a filter stage.
pub open spec fn filt_render_rel(
    pre: FilterStage,
    post: FilterStage,
    p0: Magnetron,
    p1: Magnetron,
    ctx: RenderContext,
) -> bool {
    let co = pre.coeffs_spec(pre.states@, ctx);
    let stp = pre.param_states_spec(pre.states@, ctx);
    let lvl = av_value(pre.out_level, stp, ctx);
    let st2 = av_states(pre.out_level, stp, ctx);
    let inputs = in_samples(p0, pre.in_buffer);
    let n = p0.spec_block_len();
    &&& p1.wf()
    &&& p1.num_buffers() == p0.num_buffers()
    &&& p1.spec_block_len() == p0.spec_block_len()
    &&& p1.audio_in_view() == p0.audio_in_view()
    &&& p1.total_view() == p0.total_view()
    &&& post.kind == pre.kind
    &&& post.in_buffer == pre.in_buffer
    &&& post.out_buffer == pre.out_buffer
    &&& post.out_level == pre.out_level
    &&& post.states@ == st2
    &&& post.memory == filt_memory_at(co, pre.memory, inputs, n)
    &&& forall|i: int|
        0 <= i < n ==> #[trigger] dest_at(p1, pre.out_buffer)[i] == clip_i64(
            dest_at(p0, pre.out_buffer)[i] + fx_mul(lvl, filt_out_at(co, pre.memory, inputs, i as nat)),
        )
    &&& forall|j: int|
        0 <= j < p0.num_buffers() && !(pre.out_buffer matches OutBufferSpec::Buffer(k) && k == j)
            ==> #[trigger] p1.buffer_at(j) == p0.buffer_at(j)
    &&& (pre.out_buffer matches OutBufferSpec::Buffer(_) ==> p1.voice_out_view()
        == p0.voice_out_view())
}

/// The biquad coefficients derived from raw parameter values.
pub open spec fn biquad_from_params(low: bool, vr: int, vq: int, sw: int) -> FiltCo {
    let ph = crate::source::phase_inc(vr, sw);
    let sn = crate::functions::sin_spec(ph as u64);
    let cs = crate::functions::sin_spec(
        ((ph + 0x4000_0000_0000_0000) % 0x1_0000_0000_0000_0000) as u64,
    );
    let twoq = fx_mul(2 * FX_ONE_RAW as int, vq);
    let alpha = if twoq == 0 {
        0int
    } else {
        crate::fx::fx_div(sn, twoq)
    };
    biquad_co(low, sn, cs, alpha)
}

/// A live ring-modulator stage.
pub struct RingModStage {
    pub in_buffers: (InBufferSpec, InBufferSpec),
    pub out_buffer: OutBufferSpec,
    pub out_level: AutomatedValue,
    pub states: Vec<u64>,
}

/// Well-formedness of a live ring-modulator stage.
pub open spec fn ring_wf(s: RingModStage, num_buffers: nat) -> bool {
    &&& av_wf(s.out_level, s.states@.len())
    &&& (s.out_buffer matches OutBufferSpec::Buffer(j) ==> j < num_buffers)
    &&& in_sel_wf(s.in_buffers.0, s.out_buffer, num_buffers)
    &&& in_sel_wf(s.in_buffers.1, s.out_buffer, num_buffers)
}


/// The exact block-render relation of a ring-modulator stage.
pub open spec fn ring_render_rel(
    pre: RingModStage,
    post: RingModStage,
    p0: Magnetron,
    p1: Magnetron,
    ctx: RenderContext,
) -> bool {
    let lvl = av_value(pre.out_level, pre.states@, ctx);
    let st1 = av_states(pre.out_level, pre.states@, ctx);
    let in1 = in_samples(p0, pre.in_buffers.0);
    let in2 = in_samples(p0, pre.in_buffers.1);
    let n = p0.spec_block_len();
    &&& p1.wf()
    &&& p1.num_buffers() == p0.num_buffers()
    &&& p1.spec_block_len() == p0.spec_block_len()
    &&& p1.audio_in_view() == p0.audio_in_view()
    &&& p1.total_view() == p0.total_view()
    &&& post.in_buffers == pre.in_buffers
    &&& post.out_buffer == pre.out_buffer
    &&& post.out_level == pre.out_level
    &&& post.states@ == st1
    &&& forall|i: int|
        0 <= i < n ==> #[trigger] dest_at(p1, pre.out_buffer)[i] == clip_i64(
            dest_at(p0, pre.out_buffer)[i] + fx_mul(lvl, fx_mul(in1[i] as int, in2[i] as int)),
        )
    &&& forall|j: int|
        0 <= j < p0.num_buffers() && !(pre.out_buffer matches OutBufferSpec::Buffer(k) && k == j)
            ==> #[trigger] p1.buffer_at(j) == p0.buffer_at(j)
    &&& (pre.out_buffer matches OutBufferSpec::Buffer(_) ==> p1.voice_out_view()
        == p0.voice_out_view())
}

impl RingModStage {
    /// Renders one block: the two sources are multiplied sample by sample
    /// and added, scaled, into the destination.
    pub fn render(self, pool: &mut Magnetron, ctx: &RenderContext) -> (r: RingModStage)
        requires
            old(pool).wf(),
            ring_wf(self, old(pool).num_buffers()),
            ctx_wf(*ctx),
        ensures
            ring_wf(r, final(pool).num_buffers()),
            ring_render_rel(self, r, *old(pool), *final(pool), *ctx),
    {
        let RingModStage { in_buffers, out_buffer, out_level, mut states } = self;
        let lvl = next(&out_level, &mut states, ctx);
        let ghost in1 = in_samples(*old(pool), in_buffers.0);
        let ghost in2 = in_samples(*old(pool), in_buffers.1);
        let n = pool.len();
        let mut i: usize = 0;
        while i < n
            invariant
                pool.wf(),
                n == pool.spec_block_len(),
                i <= n,
                pool.num_buffers() == old(pool).num_buffers(),
                pool.audio_in_view() == old(pool).audio_in_view(),
                pool.total_view() == old(pool).total_view(),
                (out_buffer matches OutBufferSpec::Buffer(j) ==> j < pool.num_buffers()),
                in_sel_wf(in_buffers.0, out_buffer, pool.num_buffers()),
                in_sel_wf(in_buffers.1, out_buffer, pool.num_buffers()),
                in1 == in_samples(*old(pool), in_buffers.0),
                in2 == in_samples(*old(pool), in_buffers.1),
                forall|k: int|
                    0 <= k < i ==> #[trigger] dest_at(*pool, out_buffer)[k] == clip_i64(
                        dest_at(*old(pool), out_buffer)[k] + fx_mul(
                            lvl.raw as int,
                            fx_mul(in1[k] as int, in2[k] as int),
                        ),
                    ),
                forall|k: int|
                    i <= k < n ==> #[trigger] dest_at(*pool, out_buffer)[k] == dest_at(
                        *old(pool),
                        out_buffer,
                    )[k],
                forall|j: int|
                    0 <= j < pool.num_buffers() && !(out_buffer matches OutBufferSpec::Buffer(k)
                        && k == j) ==> #[trigger] pool.buffer_at(j) == old(pool).buffer_at(j),
                (out_buffer matches OutBufferSpec::Buffer(_) ==> pool.voice_out_view() == old(
                    pool,
                ).voice_out_view()),
            decreases n - i,
        {
            let x1 = pool.read(in_buffers.0, i);
            let x2 = pool.read(in_buffers.1, i);
            proof {
                assert(x1.raw == in1[i as int]);
                assert(x2.raw == in2[i as int]);
            }
            let ghost pool_before = *pool;
            pool.add(out_buffer, i, lvl.mul(x1.mul(x2)));
            proof {
                assert(dest_at(*pool, out_buffer) == dest_at(pool_before, out_buffer).update(
                    i as int,
                    clip_i64(
                        dest_at(pool_before, out_buffer)[i as int] + fx_mul(
                            lvl.raw as int,
                            fx_mul(in1[i as int] as int, in2[i as int] as int),
                        ),
                    ) as i64,
                ));
            }
            i = i + 1;
        }
        RingModStage { in_buffers, out_buffer, out_level, states }
    }
}

} // verus!
