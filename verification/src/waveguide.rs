//! Waveguide stage: a digital delay line modelling a vibrating string or
//! air column.
//!
//! The stage keeps a comb filter (a ring buffer read with a fractional
//! offset) whose loop contains a one-pole low-pass.  The effective delay is
//! `sample_rate / (2·frequency)` minus the low-pass's intrinsic delay, and
//! the feedback is the reflectance sign applied to the magnitude of the
//! feedback source.  The per-sample recursion is pinned down by
//! [`wg_buf_at`], [`wg_pos_at`], [`wg_y_at`] and [`wg_out_at`].

use vstd::prelude::*;

use crate::buffer::{InBufferSpec, Magnetron, OutBufferSpec};
use crate::filter::one_pole_alpha;
use crate::fx::{clip_i64, fx_add, fx_clamp01, fx_div, fx_mul, fx_sub, Fx, FX_ONE_RAW};
use crate::oscillator::{dest_at, in_samples, in_sel_wf};
use crate::source::{
    av_states, av_value, av_wf, ctx_wf, next, AutomatedValue, LfSource, RenderContext,
};

verus! {

/// Whether the reflection at the far end keeps or flips the sign: a
/// negative reflectance models a string fixed at both ends, a positive one
/// an air column open at one end.
#[derive(Clone, Copy, PartialEq, Eq, Structural, Debug)]
pub enum Reflectance {
    Positive,
    Negative,
}

/// Specification of one waveguide stage.
pub struct WaveguideSpec {
    pub buffer_size: usize,
    pub frequency: LfSource,
    pub cutoff: LfSource,
    pub reflectance: Reflectance,
    pub feedback: LfSource,
    pub in_buffer: InBufferSpec,
    pub out_spec: crate::waveform::OutSpec,
}

/// A live waveguide stage.
pub struct WaveguideStage {
    pub frequency: AutomatedValue,
    pub cutoff: AutomatedValue,
    pub feedback: AutomatedValue,
    pub reflectance: Reflectance,
    pub in_buffer: InBufferSpec,
    pub out_buffer: OutBufferSpec,
    pub out_level: AutomatedValue,
    pub states: Vec<u64>,
    pub ring: Vec<i64>,
    pub pos: usize,
    pub y1: Fx,
}

/// Well-formedness of a live waveguide stage.
pub open spec fn wg_wf(s: WaveguideStage, num_buffers: nat) -> bool {
    &&& av_wf(s.frequency, s.states@.len())
    &&& av_wf(s.cutoff, s.states@.len())
    &&& av_wf(s.feedback, s.states@.len())
    &&& av_wf(s.out_level, s.states@.len())
    &&& (s.out_buffer matches OutBufferSpec::Buffer(j) ==> j < num_buffers)
    &&& in_sel_wf(s.in_buffer, s.out_buffer, num_buffers)
    &&& 1 <= s.ring@.len() <= 0x10_0000
    &&& s.pos < s.ring@.len()
}

/// The per-block parameters of the delay loop: the fractional read offset,
/// the signed feedback and the loop low-pass factor.
pub open spec fn wg_params(
    vf: int,
    vc: int,
    vfb: int,
    refl: Reflectance,
    sw: int,
    ring_len: int,
) -> (int, int, int) {
    let alpha = one_pole_alpha(vc, sw);
    let delay = if alpha == 0 {
        0int
    } else {
        fx_div(fx_sub(FX_ONE_RAW as int, alpha), alpha)
    };
    let denom = fx_mul(2 * FX_ONE_RAW as int, fx_mul(vf, sw));
    let skip = if denom == 0 {
        0int
    } else {
        fx_sub(fx_div(FX_ONE_RAW as int, denom), delay)
    };
    let offset = fx_clamp01(
        fx_div(fx_sub(skip, FX_ONE_RAW as int), clip_i64(ring_len * FX_ONE_RAW as int)),
    );
    let mag = if vfb < 0 {
        clip_i64(-vfb)
    } else {
        vfb
    };
    let fb = match refl {
        Reflectance::Positive => mag,
        Reflectance::Negative => clip_i64(-mag),
    };
    (offset, fb, alpha)
}

/// One comb step: the interpolated tap, filtered by the loop low-pass,
/// feeds back into the written sample.
pub open spec fn wg_step_out(
    offset: int,
    fb: int,
    alpha: int,
    buf: Seq<i64>,
    pos: nat,
    y1: int,
    x: int,
) -> int {
    let l = buf.len() as int;
    let t0 = buf[pos as int] as int;
    let t1 = buf[((pos + 1) as int) % l] as int;
    let interp = fx_add(t0, fx_mul(offset, fx_sub(t1, t0)));
    let y = fx_add(y1, fx_mul(alpha, fx_sub(interp, y1)));
    fx_add(x, fx_mul(fb, y))
}

/// One comb step: the new loop low-pass state.
pub open spec fn wg_step_y(
    offset: int,
    alpha: int,
    buf: Seq<i64>,
    pos: nat,
    y1: int,
) -> int {
    let l = buf.len() as int;
    let t0 = buf[pos as int] as int;
    let t1 = buf[((pos + 1) as int) % l] as int;
    let interp = fx_add(t0, fx_mul(offset, fx_sub(t1, t0)));
    fx_add(y1, fx_mul(alpha, fx_sub(interp, y1)))
}

/// The ring buffer before sample `i`.
pub open spec fn wg_buf_at(
    offset: int,
    fb: int,
    alpha: int,
    buf0: Seq<i64>,
    pos0: nat,
    y0: int,
    inputs: Seq<i64>,
    i: nat,
) -> Seq<i64>
    decreases i,
{
    if i == 0 {
        buf0
    } else {
        let j = (i - 1) as nat;
        let b = wg_buf_at(offset, fb, alpha, buf0, pos0, y0, inputs, j);
        let p = wg_pos_at(buf0.len(), pos0, j);
        let y = wg_y_at(offset, fb, alpha, buf0, pos0, y0, inputs, j);
        b.update(p as int, wg_step_out(offset, fb, alpha, b, p, y, inputs[j as int] as int) as i64)
    }
}

/// The write position before sample `i`.
pub open spec fn wg_pos_at(l: nat, pos0: nat, i: nat) -> nat
    recommends
        l >= 1,
{
    if l == 0 {
        0
    } else {
        (((pos0 + i) as int) % (l as int)) as nat
    }
}

/// The loop low-pass state before sample `i`.
pub open spec fn wg_y_at(
    offset: int,
    fb: int,
    alpha: int,
    buf0: Seq<i64>,
    pos0: nat,
    y0: int,
    inputs: Seq<i64>,
    i: nat,
) -> int
    decreases i,
{
    if i == 0 {
        y0
    } else {
        let j = (i - 1) as nat;
        let b = wg_buf_at(offset, fb, alpha, buf0, pos0, y0, inputs, j);
        let p = wg_pos_at(buf0.len(), pos0, j);
        let y = wg_y_at(offset, fb, alpha, buf0, pos0, y0, inputs, j);
        wg_step_y(offset, alpha, b, p, y)
    }
}

/// The sample the waveguide produces at index `i`.
pub open spec fn wg_out_at(
    offset: int,
    fb: int,
    alpha: int,
    buf0: Seq<i64>,
    pos0: nat,
    y0: int,
    inputs: Seq<i64>,
    i: nat,
) -> int {
    wg_step_out(
        offset,
        fb,
        alpha,
        wg_buf_at(offset, fb, alpha, buf0, pos0, y0, inputs, i),
        wg_pos_at(buf0.len(), pos0, i),
        wg_y_at(offset, fb, alpha, buf0, pos0, y0, inputs, i),
        inputs[i as int] as int,
    )
}


/// The exact block-render relation of a waveguide stage.
pub open spec fn wg_render_rel(
    pre: WaveguideStage,
    post: WaveguideStage,
    p0: Magnetron,
    p1: Magnetron,
    ctx: RenderContext,
) -> bool {
    let vf = av_value(pre.frequency, pre.states@, ctx);
    let st1 = av_states(pre.frequency, pre.states@, ctx);
    let vc = av_value(pre.cutoff, st1, ctx);
    let st2 = av_states(pre.cutoff, st1, ctx);
    let vfb = av_value(pre.feedback, st2, ctx);
    let st3 = av_states(pre.feedback, st2, ctx);
    let lvl = av_value(pre.out_level, st3, ctx);
    let st4 = av_states(pre.out_level, st3, ctx);
    let p = wg_params(vf, vc, vfb, pre.reflectance, ctx.sample_width.raw as int, pre.ring@.len() as int);
    let inputs = in_samples(p0, pre.in_buffer);
    let n = p0.spec_block_len();
    &&& p1.wf()
    &&& p1.num_buffers() == p0.num_buffers()
    &&& p1.spec_block_len() == p0.spec_block_len()
    &&& p1.audio_in_view() == p0.audio_in_view()
    &&& p1.total_view() == p0.total_view()
    &&& post.frequency == pre.frequency
    &&& post.cutoff == pre.cutoff
    &&& post.feedback == pre.feedback
    &&& post.reflectance == pre.reflectance
    &&& post.in_buffer == pre.in_buffer
    &&& post.out_buffer == pre.out_buffer
    &&& post.out_level == pre.out_level
    &&& post.ring@.len() == pre.ring@.len()
    &&& post.states@ == st4
    &&& post.ring@ == wg_buf_at(p.0, p.1, p.2, pre.ring@, pre.pos as nat, pre.y1.raw as int, inputs, n)
    &&& post.pos == wg_pos_at(pre.ring@.len(), pre.pos as nat, n)
    &&& post.y1.raw == wg_y_at(p.0, p.1, p.2, pre.ring@, pre.pos as nat, pre.y1.raw as int, inputs, n)
    &&& forall|i: int|
        0 <= i < n ==> #[trigger] dest_at(p1, pre.out_buffer)[i] == clip_i64(
            dest_at(p0, pre.out_buffer)[i] + fx_mul(
                lvl,
                wg_out_at(p.0, p.1, p.2, pre.ring@, pre.pos as nat, pre.y1.raw as int, inputs, i as nat),
            ),
        )
    &&& forall|j: int|
        0 <= j < p0.num_buffers() && !(pre.out_buffer matches OutBufferSpec::Buffer(k) && k == j)
            ==> #[trigger] p1.buffer_at(j) == p0.buffer_at(j)
    &&& (pre.out_buffer matches OutBufferSpec::Buffer(_) ==> p1.voice_out_view()
        == p0.voice_out_view())
}

impl WaveguideStage {
    /// Renders one block through the delay loop.
    #[verifier::rlimit(100)]
    pub fn render(self, pool: &mut Magnetron, ctx: &RenderContext) -> (r: WaveguideStage)
        requires
            old(pool).wf(),
            wg_wf(self, old(pool).num_buffers()),
            ctx_wf(*ctx),
        ensures
            wg_wf(r, final(pool).num_buffers()),
            wg_render_rel(self, r, *old(pool), *final(pool), *ctx),
    {
        let WaveguideStage {
            frequency,
            cutoff,
            feedback,
            reflectance,
            in_buffer,
            out_buffer,
            out_level,
            mut states,
            mut ring,
            mut pos,
            mut y1,
        } = self;
        let vf = next(&frequency, &mut states, ctx);
        let vc = next(&cutoff, &mut states, ctx);
        let vfb = next(&feedback, &mut states, ctx);
        let lvl = next(&out_level, &mut states, ctx);

        let alpha = crate::filter::compute_one_pole_alpha(vc, ctx.sample_width);
        let delay = if alpha.is_zero() {
            Fx { raw: 0 }
        } else {
            Fx { raw: FX_ONE_RAW }.sub(alpha).div(alpha)
        };
        let denom = Fx { raw: 2 * FX_ONE_RAW }.mul(vf.mul(ctx.sample_width));
        let skip = if denom.is_zero() {
            Fx { raw: 0 }
        } else {
            Fx { raw: FX_ONE_RAW }.div(denom).sub(delay)
        };
        let ring_len = ring.len();
        proof {
            crate::fx::lemma_i64_mul_bounds(ring_len as int, FX_ONE_RAW as int);
        }
        let ring_len_fx = Fx {
            raw: crate::fx::clip_i128_exec((ring_len as i128) * (FX_ONE_RAW as i128)),
        };
        let offset = skip.sub(Fx { raw: FX_ONE_RAW }).div(ring_len_fx).clamp01();
        let mag = vfb.abs();
        let fb = match reflectance {
            Reflectance::Positive => mag,
            Reflectance::Negative => mag.neg(),
        };
        let ghost prm = wg_params(
            vf.raw as int,
            vc.raw as int,
            vfb.raw as int,
            reflectance,
            ctx.sample_width.raw as int,
            ring_len as int,
        );
        proof {
            assert(offset.raw == prm.0);
            assert(fb.raw == prm.1);
            assert(alpha.raw == prm.2);
        }

        let ghost ring0 = ring@;
        let ghost pos0 = pos as nat;
        let ghost y0 = y1.raw as int;
        let ghost inputs = in_samples(*old(pool), in_buffer);
        proof {
            vstd::arithmetic::div_mod::lemma_small_mod(pos0, ring0.len());
        }
        let n = pool.len();
        let mut i: usize = 0;
        while i < n
            invariant
                pool.wf(),
                n == pool.spec_block_len(),
                i <= n,
                pool.num_buffers() == old(pool).num_buffers(),
                pool.audio_in_view() == old(pool).audio_in_view(),
                pool.total_view() == old(pool).total_view(),
                (out_buffer matches OutBufferSpec::Buffer(j) ==> j < pool.num_buffers()),
                in_sel_wf(in_buffer, out_buffer, pool.num_buffers()),
                inputs == in_samples(*old(pool), in_buffer),
                ring@.len() == ring0.len(),
                ring_len == ring0.len(),
                1 <= ring_len,
                pos < ring_len,
                offset.raw == prm.0,
                fb.raw == prm.1,
                alpha.raw == prm.2,
                ring@ == wg_buf_at(prm.0, prm.1, prm.2, ring0, pos0, y0, inputs, i as nat),
                pos == wg_pos_at(ring0.len(), pos0, i as nat),
                y1.raw == wg_y_at(prm.0, prm.1, prm.2, ring0, pos0, y0, inputs, i as nat),
                forall|k: int|
                    0 <= k < i ==> #[trigger] dest_at(*pool, out_buffer)[k] == clip_i64(
                        dest_at(*old(pool), out_buffer)[k] + fx_mul(
                            lvl.raw as int,
                            wg_out_at(prm.0, prm.1, prm.2, ring0, pos0, y0, inputs, k as nat),
                        ),
                    ),
                forall|k: int|
                    i <= k < n ==> #[trigger] dest_at(*pool, out_buffer)[k] == dest_at(
                        *old(pool),
                        out_buffer,
                    )[k],
                forall|j: int|
                    0 <= j < pool.num_buffers() && !(out_buffer matches OutBufferSpec::Buffer(k)
                        && k == j) ==> #[trigger] pool.buffer_at(j) == old(pool).buffer_at(j),
                (out_buffer matches OutBufferSpec::Buffer(_) ==> pool.voice_out_view() == old(
                    pool,
                ).voice_out_view()),
            decreases n - i,
        {
            let x = pool.read(in_buffer, i);
            proof {
                assert(x.raw == inputs[i as int]);
            }
            let t0 = Fx { raw: ring[pos] };
            let next_pos = if pos + 1 == ring_len {
                0
            } else {
                pos + 1
            };
            let t1 = Fx { raw: ring[next_pos] };
            proof {
                if pos + 1 == ring_len {
                    vstd::arithmetic::div_mod::lemma_mod_self_0(ring_len as int);
                } else {
                    vstd::arithmetic::div_mod::lemma_small_mod((pos + 1) as nat, ring_len as nat);
                }
                assert(next_pos as int == ((pos + 1) as int) % (ring_len as int));
            }
            let ghost ring_pre = ring@;
            let ghost pos_pre = pos as nat;
            let ghost y_pre = y1.raw as int;
            let interp = t0.add(offset.mul(t1.sub(t0)));
            let y = y1.add(alpha.mul(interp.sub(y1)));
            let out = x.add(fb.mul(y));
            proof {
                assert(out.raw == wg_step_out(
                    prm.0,
                    prm.1,
                    prm.2,
                    ring_pre,
                    pos_pre,
                    y_pre,
                    x.raw as int,
                ));
                assert(y.raw == wg_step_y(prm.0, prm.2, ring_pre, pos_pre, y_pre));
            }
            ring.set(pos, out.raw);
            y1 = y;
            pos = next_pos;
            proof {
                assert(ring@ == wg_buf_at(
                    prm.0,
                    prm.1,
                    prm.2,
                    ring0,
                    pos0,
                    y0,
                    inputs,
                    (i + 1) as nat,
                ));
                assert(y1.raw == wg_y_at(
                    prm.0,
                    prm.1,
                    prm.2,
                    ring0,
                    pos0,
                    y0,
                    inputs,
                    (i + 1) as nat,
                ));
                assert(pos as int == ((pos0 + (i + 1)) as int) % (ring0.len() as int)) by {
                    if ring0.len() == 1 {
                        vstd::arithmetic::div_mod::lemma_mod_self_0(1);
                        vstd::arithmetic::div_mod::lemma_mod_decreases((pos0 + (i + 1)) as nat, 1);
                        assert(((pos0 + (i + 1)) as int) % 1int == 0);
                    } else {
                        vstd::arithmetic::div_mod::lemma_small_mod(1, ring0.len());
                        vstd::arithmetic::div_mod::lemma_small_mod(pos_pre, ring0.len());
                        vstd::arithmetic::div_mod::lemma_add_mod_noop(
                            (pos0 + i) as int,
                            1,
                            ring0.len() as int,
                        );
                    }
                };
            }
            let ghost pool_before = *pool;
            pool.add(out_buffer, i, lvl.mul(out));
            proof {
                assert(dest_at(*pool, out_buffer) == dest_at(pool_before, out_buffer).update(
                    i as int,
                    clip_i64(
                        dest_at(pool_before, out_buffer)[i as int] + fx_mul(
                            lvl.raw as int,
                            wg_out_at(prm.0, prm.1, prm.2, ring0, pos0, y0, inputs, i as nat),
                        ),
                    ) as i64,
                ));
            }
            i = i + 1;
        }
        WaveguideStage {
            frequency,
            cutoff,
            feedback,
            reflectance,
            in_buffer,
            out_buffer,
            out_level,
            states,
            ring,
            pos,
            y1,
        }
    }
}

} // verus!
