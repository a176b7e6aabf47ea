//! Envelope and voice lifecycle.
//!
//! While a key is held the amplitude rises linearly from 0 to the
//! amplitude source's value over the attack time, then decays
//! exponentially at the decay rate.  After release the amplitude is scaled
//! by a release progress that falls linearly from 1 to 0 over the release
//! time; the damper pedal slows the fall by `1 - damper·(1 - fadeout)`, so
//! a fully pressed damper with fadeout 0 sustains the voice indefinitely.
//!
//! The linear fall is this crate's deliberate realization of the released
//! decay: it is the curve that actually reaches silence by the effective
//! release time, which the retirement guarantee and the damper-sustain
//! behaviour are proved against ([`lemma_release_progress_falls`],
//! [`lemma_exhausted_release_is_silent`]); a pure exponential would never
//! reach zero within the stated window.

use vstd::prelude::*;

use crate::fx::{fx_add, fx_clamp01, fx_div, fx_mul, fx_sub, Fx, FX_ONE_RAW};
use crate::source::{
    av_states, av_value, av_wf, clamp_exp, ctx_wf, next, AutomatedValue, LfSource, RenderContext,
};

verus! {

/// `log2(e)` in Q32.32: converts a natural decay rate into a base-2
/// exponent.
pub const LOG2E_RAW: i64 = 6196328019;

/// The declarative envelope parameters, all low-frequency sources.
pub struct EnvelopeSpec {
    pub amplitude: LfSource,
    pub fadeout: LfSource,
    pub attack_time: LfSource,
    pub decay_rate: LfSource,
    pub release_time: LfSource,
}

/// A named envelope, as stored in the configuration.
pub struct NamedEnvelopeSpec {
    pub name: String,
    pub spec: EnvelopeSpec,
}

/// A live envelope instance.
pub struct Envelope {
    pub amplitude: AutomatedValue,
    pub fadeout: AutomatedValue,
    pub attack_time: AutomatedValue,
    pub decay_rate: AutomatedValue,
    pub release_time: AutomatedValue,
    pub states: Vec<u64>,
    pub elapsed: Fx,
    pub decay_factor: Fx,
    pub released: bool,
    pub release_progress: Fx,
    pub damper: Fx,
}

/// Well-formedness of a live envelope.
pub open spec fn env_wf(e: Envelope) -> bool {
    &&& av_wf(e.amplitude, e.states@.len())
    &&& av_wf(e.fadeout, e.states@.len())
    &&& av_wf(e.attack_time, e.states@.len())
    &&& av_wf(e.decay_rate, e.states@.len())
    &&& av_wf(e.release_time, e.states@.len())
}

/// The five envelope sources sampled in order: the resulting state vector
/// and the five values.
pub open spec fn env_sampled(e: Envelope, ctx: RenderContext) -> (Seq<u64>, int, int, int, int, int) {
    let st0 = e.states@;
    let amp = av_value(e.amplitude, st0, ctx);
    let st1 = av_states(e.amplitude, st0, ctx);
    let fo = av_value(e.fadeout, st1, ctx);
    let st2 = av_states(e.fadeout, st1, ctx);
    let at = av_value(e.attack_time, st2, ctx);
    let st3 = av_states(e.attack_time, st2, ctx);
    let dr = av_value(e.decay_rate, st3, ctx);
    let st4 = av_states(e.decay_rate, st3, ctx);
    let rt = av_value(e.release_time, st4, ctx);
    let st5 = av_states(e.release_time, st4, ctx);
    (st5, amp, fo, at, dr, rt)
}

/// The amplitude factor of the block: source amplitude times attack ramp,
/// decay factor and release progress.  The attack ramp is evaluated at the
/// end of the block, so the first block of a voice already carries sound.
pub open spec fn env_amplitude(e: Envelope, ctx: RenderContext) -> int {
    let s = env_sampled(e, ctx);
    let amp = s.1;
    let at = s.3;
    let attack = if at <= 0 {
        FX_ONE_RAW as int
    } else {
        fx_clamp01(fx_div(fx_add(e.elapsed.raw as int, ctx.block_secs.raw as int), at))
    };
    let rel = if e.released {
        e.release_progress.raw as int
    } else {
        FX_ONE_RAW as int
    };
    fx_mul(fx_mul(fx_mul(amp, attack), e.decay_factor.raw as int), rel)
}

/// The envelope after the block: time advanced, the decay accumulated once
/// the attack is over, and the release progress lowered by
/// `block_secs · (1 - damper·(1 - fadeout)) / release_time`.
pub open spec fn env_advanced(e: Envelope, ctx: RenderContext) -> Envelope {
    let s = env_sampled(e, ctx);
    let fo = s.2;
    let at = s.3;
    let dr = s.4;
    let rt = s.5;
    let bs = ctx.block_secs.raw as int;
    let decay_factor = if e.elapsed.raw >= at {
        Fx {
            raw: fx_mul(
                e.decay_factor.raw as int,
                crate::pitch::exp2_fx_of(
                    clamp_exp(crate::fx::clip_i64(-fx_mul(fx_mul(dr, bs), LOG2E_RAW as int))),
                ),
            ) as i64,
        }
    } else {
        e.decay_factor
    };
    let release_progress = if e.released {
        let scale = fx_clamp01(
            fx_sub(
                FX_ONE_RAW as int,
                fx_mul(e.damper.raw as int, fx_sub(FX_ONE_RAW as int, fx_clamp01(fo))),
            ),
        );
        let dec = if rt <= 0 {
            FX_ONE_RAW as int
        } else {
            fx_mul(scale, fx_div(bs, rt))
        };
        let p = fx_sub(e.release_progress.raw as int, dec);
        Fx {
            raw: if p < 0 {
                0i64
            } else {
                p as i64
            },
        }
    } else {
        e.release_progress
    };
    Envelope {
        states: e.states,
        elapsed: Fx { raw: fx_add(e.elapsed.raw as int, bs) as i64 },
        decay_factor,
        release_progress,
        ..e
    }
}

/// With the damper lifted, every block lowers the release progress of a
/// released envelope by `block_secs / release_time` (saturating at 0), so
/// the progress reaches 0 once the release time has elapsed and the voice
/// can be retired.
pub proof fn lemma_release_progress_falls(e: Envelope, ctx: RenderContext)
    requires
        e.released,
        e.damper.raw == 0,
        ctx.block_secs.raw >= 0,
        env_sampled(e, ctx).5 > 0,
    ensures
        ({
            let rt = env_sampled(e, ctx).5;
            let dec = fx_div(ctx.block_secs.raw as int, rt);
            env_advanced(e, ctx).release_progress.raw == (if e.release_progress.raw - dec < 0 {
                0int
            } else {
                e.release_progress.raw - dec
            })
        }),
{
    let fo = env_sampled(e, ctx).2;
    let rt = env_sampled(e, ctx).5;
    let bs = ctx.block_secs.raw as int;
    assert(fx_mul(0, fx_sub(FX_ONE_RAW as int, fx_clamp01(fo))) == 0) by {
        assert(0 * fx_sub(FX_ONE_RAW as int, fx_clamp01(fo)) == 0) by (nonlinear_arith);
    }
    let dec = fx_div(bs, rt);
    assert(fx_mul(FX_ONE_RAW as int, dec) == dec) by {
        vstd::arithmetic::div_mod::lemma_div_multiples_vanish(dec, FX_ONE_RAW as int);
        assert(FX_ONE_RAW as int * dec == dec * FX_ONE_RAW as int) by (nonlinear_arith);
    }
}

/// A fully pressed damper over an envelope whose fadeout value is 0
/// freezes the release progress entirely: the effective release time is
/// infinite until the pedal moves.
pub proof fn lemma_full_damper_freezes_release(e: Envelope, ctx: RenderContext)
    requires
        e.released,
        e.damper.raw == FX_ONE_RAW,
        e.release_progress.raw >= 0,
        env_sampled(e, ctx).2 <= 0,
        env_sampled(e, ctx).5 > 0,
    ensures
        env_advanced(e, ctx).release_progress == e.release_progress,
{
    let fo = env_sampled(e, ctx).2;
    let rt = env_sampled(e, ctx).5;
    assert(fx_clamp01(fo) == 0);
    assert(fx_mul(FX_ONE_RAW as int, FX_ONE_RAW as int) == FX_ONE_RAW) by {
        vstd::arithmetic::div_mod::lemma_div_multiples_vanish(
            FX_ONE_RAW as int,
            FX_ONE_RAW as int,
        );
    }
    if rt > 0 {
        assert(fx_mul(0, fx_div(ctx.block_secs.raw as int, rt)) == 0) by {
            assert(0 * fx_div(ctx.block_secs.raw as int, rt) == 0) by (nonlinear_arith);
        }
    }
}

/// Once the release progress has reached 0, the envelope is silent: the
/// block amplitude is exactly 0, whatever the sources produce.
pub proof fn lemma_exhausted_release_is_silent(e: Envelope, ctx: RenderContext)
    requires
        e.released,
        e.release_progress.raw == 0,
    ensures
        env_amplitude(e, ctx) == 0,
{
    let s = env_sampled(e, ctx);
    let amp = s.1;
    let at = s.3;
    let attack = if at <= 0 {
        FX_ONE_RAW as int
    } else {
        fx_clamp01(fx_div(fx_add(e.elapsed.raw as int, ctx.block_secs.raw as int), at))
    };
    let base = fx_mul(fx_mul(amp, attack), e.decay_factor.raw as int);
    assert(fx_mul(base, 0) == 0) by {
        assert(base * 0 == 0) by (nonlinear_arith);
    }
}

impl Envelope {
    /// Samples the envelope for one block and advances its state,
    /// returning the block's amplitude factor.
    pub fn next_amplitude(&mut self, ctx: &RenderContext) -> (r: Fx)
        requires
            env_wf(*old(self)),
            ctx_wf(*ctx),
        ensures
            env_wf(*final(self)),
            r.raw == env_amplitude(*old(self), *ctx),
            *final(self) == (Envelope {
                states: final(self).states,
                ..env_advanced(*old(self), *ctx)
            }),
            final(self).states@ == env_sampled(*old(self), *ctx).0,
    {
        let amp = next(&self.amplitude, &mut self.states, ctx);
        let fo = next(&self.fadeout, &mut self.states, ctx);
        let at = next(&self.attack_time, &mut self.states, ctx);
        let dr = next(&self.decay_rate, &mut self.states, ctx);
        let rt = next(&self.release_time, &mut self.states, ctx);

        let attack = if at.raw <= 0 {
            Fx { raw: FX_ONE_RAW }
        } else {
            self.elapsed.add(ctx.block_secs).div(at).clamp01()
        };
        let rel = if self.released {
            self.release_progress
        } else {
            Fx { raw: FX_ONE_RAW }
        };
        let result = amp.mul(attack).mul(self.decay_factor).mul(rel);

        if self.elapsed.raw >= at.raw {
            let ex = dr.mul(ctx.block_secs).mul(Fx { raw: LOG2E_RAW }).neg();
            let clamped = if ex.raw >= 0x4000_0000_0000_0000 {
                Fx { raw: 0x3FFF_FFFF_FFFF_FFFF }
            } else if ex.raw <= -0x4000_0000_0000_0000 {
                Fx { raw: -0x3FFF_FFFF_FFFF_FFFF }
            } else {
                ex
            };
            self.decay_factor = self.decay_factor.mul(crate::pitch::exp2_fx(clamped));
        }
        if self.released {
            let scale = Fx { raw: FX_ONE_RAW }.sub(
                self.damper.mul(Fx { raw: FX_ONE_RAW }.sub(fo.clamp01())),
            ).clamp01();
            let dec = if rt.raw <= 0 {
                Fx { raw: FX_ONE_RAW }
            } else {
                scale.mul(ctx.block_secs.div(rt))
            };
            let p = self.release_progress.sub(dec);
            self.release_progress = if p.raw < 0 {
                Fx { raw: 0 }
            } else {
                p
            };
        }
        self.elapsed = self.elapsed.add(ctx.block_secs);
        result
    }

    /// Marks the envelope released (if it was not yet) and records the
    /// current damper pressure, which modulates the ongoing fade.
    pub fn set_fade(&mut self, damper: Fx)
        requires
            env_wf(*old(self)),
        ensures
            env_wf(*final(self)),
            *final(self) == (Envelope { released: true, damper, ..*old(self) }),
    {
        self.released = true;
        self.damper = damper;
    }
}

} // verus!
