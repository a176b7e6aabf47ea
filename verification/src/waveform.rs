//! Per-voice data: the property record read by the low-frequency sources,
//! the stage specifications, the live stages and the voice itself.

use vstd::prelude::*;

use crate::buffer::{seq_peak, Magnetron, OutBufferSpec};
use crate::envelope::{env_advanced, env_amplitude, env_sampled, env_wf, Envelope};
use crate::filter::{filt_render_rel, filt_wf, ring_render_rel, Filter, FilterStage, RingModStage, RingModulator};
use crate::fx::{clip_i64, fx_mul, Fx};
use crate::oscillator::{osc_render_rel, osc_wf, Oscillator, OscillatorStage};
use crate::pitch::{Pitch, Ratio};
use crate::signal::{sig_render_rel, sig_wf, SignalSpec, SignalStage};
use crate::source::{ctx_wf, LfSource, RenderContext};
use crate::synth::ControlStorage;
use crate::waveguide::{wg_render_rel, wg_wf, WaveguideSpec, WaveguideStage};

verus! {

/// Where a stage writes and how loudly.
pub struct OutSpec {
    pub out_buffer: OutBufferSpec,
    pub out_level: LfSource,
}

/// The built-in envelope families that the envelope toggle cycles through.
#[derive(Clone, Copy, PartialEq, Eq, Structural, Debug)]
pub enum EnvelopeType {
    Organ,
    Piano,
    Pad,
    Bell,
}

/// A readable property of the playing voice.
#[derive(Clone, Copy, PartialEq, Eq, Structural, Debug)]
pub enum WaveformProperty {
    /// The voice's pitch with the pitch bend applied, in Hz.
    WaveformPitch,
    /// The reciprocal of [`WaveformProperty::WaveformPitch`], in seconds.
    WaveformPeriod,
    /// The key-on velocity, in `[0, 1]`.
    Velocity,
    /// The key-off velocity, in `[0, 1]`; 0 while the key is held.
    OffVelocity,
    /// 1 once the key has been released, 0 before.
    OffVelocitySet,
    /// The current key pressure, in `[0, 1]`.
    KeyPressure,
}

/// The property record carried by every voice.
#[derive(Clone, Copy, PartialEq, Eq, Structural, Debug)]
pub struct WaveformProperties {
    pub pitch: Pitch,
    pub pitch_bend: Ratio,
    pub velocity: Fx,
    pub pressure: Fx,
    pub off_velocity: Fx,
    pub off_velocity_set: bool,
    pub curr_amplitude: Fx,
}

impl WaveformProperties {
    /// A fresh record for a voice started at the given pitch and velocity.
    pub fn new(pitch: Pitch, velocity: Fx) -> (r: WaveformProperties)
        ensures
            r.pitch == pitch,
            r.pitch_bend.raw == 0,
            r.velocity == velocity,
            r.pressure.raw == 0,
            r.off_velocity.raw == 0,
            !r.off_velocity_set,
            r.curr_amplitude.raw == crate::fx::FX_ONE_RAW,
    {
        WaveformProperties {
            pitch,
            pitch_bend: Ratio { raw: 0 },
            velocity,
            pressure: Fx { raw: 0 },
            off_velocity: Fx { raw: 0 },
            off_velocity_set: false,
            curr_amplitude: Fx { raw: crate::fx::FX_ONE_RAW },
        }
    }
}

/// The value a property reads from the record: the pitch-dependent entries
/// go through the exponential, the others are plain fields.
pub open spec fn property_value(k: WaveformProperty, p: WaveformProperties) -> int {
    match k {
        WaveformProperty::WaveformPitch => crate::pitch::hz_fx_of(
            crate::pitch::stretch_spec(p.pitch.raw as int, p.pitch_bend.raw as int),
        ),
        WaveformProperty::WaveformPeriod => {
            let hz = crate::pitch::hz_fx_of(
                crate::pitch::stretch_spec(p.pitch.raw as int, p.pitch_bend.raw as int),
            );
            if hz == 0 {
                0int
            } else {
                crate::fx::fx_div(crate::fx::FX_ONE_RAW as int, hz)
            }
        },
        WaveformProperty::Velocity => p.velocity.raw as int,
        WaveformProperty::OffVelocity => p.off_velocity.raw as int,
        WaveformProperty::OffVelocitySet => if p.off_velocity_set {
            crate::fx::FX_ONE_RAW as int
        } else {
            0int
        },
        WaveformProperty::KeyPressure => p.pressure.raw as int,
    }
}

/// Reads a property from the record.
pub fn read_property(k: WaveformProperty, p: &WaveformProperties) -> (r: Fx)
    ensures
        r.raw == property_value(k, *p),
{
    match k {
        WaveformProperty::WaveformPitch => p.pitch.mul_ratio(p.pitch_bend).as_hz_fx(),
        WaveformProperty::WaveformPeriod => {
            let hz = p.pitch.mul_ratio(p.pitch_bend).as_hz_fx();
            if hz.is_zero() {
                Fx { raw: 0 }
            } else {
                Fx { raw: crate::fx::FX_ONE_RAW }.div(hz)
            }
        },
        WaveformProperty::Velocity => p.velocity,
        WaveformProperty::OffVelocity => p.off_velocity,
        WaveformProperty::OffVelocitySet => {
            if p.off_velocity_set {
                Fx { raw: crate::fx::FX_ONE_RAW }
            } else {
                Fx { raw: 0 }
            }
        },
        WaveformProperty::KeyPressure => p.pressure,
    }
}

/// A named low-frequency source template.
pub struct TemplateSpec {
    pub name: String,
    pub value: LfSource,
}

/// One stage of a waveform specification.
pub enum StageSpec {
    Oscillator(Oscillator),
    Filter(Filter),
    Signal(SignalSpec),
    Waveguide(WaveguideSpec),
    RingModulator(RingModulator),
}

/// A declarative waveform: a name, the envelope it plays under, and its
/// ordered stages.
pub struct WaveformSpec {
    pub name: String,
    pub envelope: String,
    pub stages: Vec<StageSpec>,
}

/// One live stage of a playing voice.
pub enum Stage {
    Oscillator(OscillatorStage),
    Filter(FilterStage),
    Signal(SignalStage),
    Waveguide(WaveguideStage),
    RingModulator(RingModStage),
}

/// Well-formedness of a live stage against the pool.
pub open spec fn stage_wf(s: Stage, num_buffers: nat) -> bool {
    match s {
        Stage::Oscillator(st) => osc_wf(st, num_buffers),
        Stage::Filter(st) => filt_wf(st, num_buffers),
        Stage::Signal(st) => sig_wf(st, num_buffers),
        Stage::Waveguide(st) => wg_wf(st, num_buffers),
        Stage::RingModulator(st) => crate::filter::ring_wf(st, num_buffers),
    }
}

/// The exact block-render relation of any stage: the flavor is preserved
/// and the matching per-flavor relation holds.
pub open spec fn stage_render_rel(
    pre: Stage,
    post: Stage,
    p0: Magnetron,
    p1: Magnetron,
    ctx: RenderContext,
) -> bool {
    match pre {
        Stage::Oscillator(a) => post matches Stage::Oscillator(b) && osc_render_rel(
            a,
            b,
            p0,
            p1,
            ctx,
        ),
        Stage::Filter(a) => post matches Stage::Filter(b) && filt_render_rel(a, b, p0, p1, ctx),
        Stage::Signal(a) => post matches Stage::Signal(b) && sig_render_rel(a, b, p0, p1, ctx),
        Stage::Waveguide(a) => post matches Stage::Waveguide(b) && wg_render_rel(
            a,
            b,
            p0,
            p1,
            ctx,
        ),
        Stage::RingModulator(a) => post matches Stage::RingModulator(b) && ring_render_rel(
            a,
            b,
            p0,
            p1,
            ctx,
        ),
    }
}

impl Stage {
    /// Renders one block of this stage, forwarding the exact per-flavor
    /// relation.
    pub fn render(self, pool: &mut Magnetron, ctx: &RenderContext) -> (r: Stage)
        requires
            old(pool).wf(),
            stage_wf(self, old(pool).num_buffers()),
            ctx_wf(*ctx),
        ensures
            stage_wf(r, final(pool).num_buffers()),
            stage_render_rel(self, r, *old(pool), *final(pool), *ctx),
    {
        match self {
            Stage::Oscillator(st) => Stage::Oscillator(st.render(pool, ctx)),
            Stage::Filter(st) => Stage::Filter(st.render(pool, ctx)),
            Stage::Signal(st) => Stage::Signal(st.render(pool, ctx)),
            Stage::Waveguide(st) => Stage::Waveguide(st.render(pool, ctx)),
            Stage::RingModulator(st) => Stage::RingModulator(st.render(pool, ctx)),
        }
    }
}

/// A playing voice: its ordered stages, its envelope and its property
/// record.
pub struct Waveform {
    pub stages: Vec<Stage>,
    pub envelope: Envelope,
    pub properties: WaveformProperties,
}

/// Well-formedness of a voice against the pool.
pub open spec fn waveform_wf(w: Waveform, num_buffers: nat) -> bool {
    &&& forall|i: int|
        0 <= i < w.stages@.len() ==> stage_wf(#[trigger] w.stages@[i], num_buffers)
    &&& env_wf(w.envelope)
}

/// The context one voice renders a block under.
pub open spec fn voice_ctx(
    p0: Magnetron,
    props: WaveformProperties,
    storage: ControlStorage,
    sw: Fx,
) -> RenderContext {
    RenderContext {
        block_secs: Fx { raw: clip_i64(p0.spec_block_len() * sw.raw) as i64 },
        sample_width: sw,
        properties: props,
        storage,
    }
}

/// The pool after the per-voice clear: named buffers and the voice output
/// zeroed, mixdown and audio-in untouched.
pub open spec fn voice_cleared(p0: Magnetron, c: Magnetron) -> bool {
    &&& c.wf()
    &&& c.num_buffers() == p0.num_buffers()
    &&& c.spec_block_len() == p0.spec_block_len()
    &&& c.total_view() == p0.total_view()
    &&& c.audio_in_view() == p0.audio_in_view()
    &&& forall|j: int, i: int|
        0 <= j < c.num_buffers() && 0 <= i < c.spec_block_len() ==> #[trigger] c.buffer_at(j)[i]
            == 0
    &&& forall|i: int| 0 <= i < c.spec_block_len() ==> c.voice_out_view()[i] == 0
}

/// The stages of a voice rendered in order: each stage's exact relation
/// holds between consecutive pool states.
pub open spec fn stages_rendered(
    pre: Seq<Stage>,
    post: Seq<Stage>,
    p0: Magnetron,
    p1: Magnetron,
    ctx: RenderContext,
) -> bool
    decreases pre.len(),
{
    if pre.len() == 0 {
        post.len() == 0 && p1 == p0
    } else {
        &&& post.len() == pre.len()
        &&& exists|mid: Magnetron, st2: Stage|
            {
                &&& #[trigger] stage_render_rel(pre[0], st2, p0, mid, ctx)
                &&& post[0] == st2
                &&& stages_rendered(pre.skip(1), post.skip(1), mid, p1, ctx)
            }
    }
}

/// The pool chain of one voice render: `p0` cleared to `cleared`, the
/// stages run to `staged`, and the scaled voice output mixed into `p1`.
pub open spec fn voice_pools_chain(
    pre: Waveform,
    post: Waveform,
    p0: Magnetron,
    p1: Magnetron,
    cleared: Magnetron,
    staged: Magnetron,
    storage: ControlStorage,
    sw: Fx,
) -> bool {
    let ctx = voice_ctx(p0, pre.properties, storage, sw);
    let amp = env_amplitude(pre.envelope, ctx);
    let n = p0.spec_block_len();
    &&& voice_cleared(p0, cleared)
    &&& stages_rendered(pre.stages@, post.stages@, cleared, staged, ctx)
    &&& p1.voice_out_view() == staged.voice_out_view()
    &&& forall|j: int|
        0 <= j < p1.num_buffers() ==> #[trigger] p1.buffer_at(j) == staged.buffer_at(j)
    &&& forall|i: int|
        0 <= i < n ==> #[trigger] p1.total_view()[i] == clip_i64(
            staged.total_view()[i] + clip_i64(
                crate::fx::div_trunc(
                    staged.voice_out_view()[i] * amp,
                    crate::fx::FX_ONE_RAW as int,
                ),
            ),
        )
}

/// The exact block-render relation of a voice: the pool is cleared for the
/// voice, the stages run in order, the envelope advances, and the voice
/// output, scaled by the envelope amplitude, accumulates into the mixdown
/// while the scaled peak becomes the voice's current amplitude.
pub open spec fn waveform_render_rel(
    pre: Waveform,
    post: Waveform,
    p0: Magnetron,
    p1: Magnetron,
    storage: ControlStorage,
    sw: Fx,
) -> bool {
    let ctx = voice_ctx(p0, pre.properties, storage, sw);
    let amp = env_amplitude(pre.envelope, ctx);
    let n = p0.spec_block_len();
    &&& p1.wf()
    &&& p1.num_buffers() == p0.num_buffers()
    &&& p1.spec_block_len() == p0.spec_block_len()
    &&& p1.audio_in_view() == p0.audio_in_view()
    &&& post.stages@.len() == pre.stages@.len()
    &&& exists|cleared: Magnetron, staged: Magnetron| #[trigger] voice_pools_chain(
        pre,
        post,
        p0,
        p1,
        cleared,
        staged,
        storage,
        sw,
    )
    &&& post.envelope == (Envelope {
        states: post.envelope.states,
        ..env_advanced(pre.envelope, ctx)
    })
    &&& post.envelope.states@ == env_sampled(pre.envelope, ctx).0
    &&& post.properties == (WaveformProperties {
        curr_amplitude: Fx { raw: fx_mul(amp, seq_peak(p1.voice_out_view(), n)) as i64 },
        ..pre.properties
    })
}

impl Waveform {
    /// Renders one block of the voice, exactly as [`waveform_render_rel`]
    /// states.
    pub fn render(self, pool: &mut Magnetron, storage: &ControlStorage, sample_width: Fx) -> (r:
        Waveform)
        requires
            old(pool).wf(),
            waveform_wf(self, old(pool).num_buffers()),
            sample_width.raw >= 0,
        ensures
            final(pool).wf(),
            waveform_wf(r, final(pool).num_buffers()),
            waveform_render_rel(self, r, *old(pool), *final(pool), *storage, sample_width),
    {
        let n = pool.len();
        proof {
            crate::fx::lemma_i64_mul_bounds(n as int, sample_width.raw as int);
        }
        let block_secs = Fx {
            raw: crate::fx::clip_i128_exec((n as i128) * (sample_width.raw as i128)),
        };
        let ctx = RenderContext {
            block_secs,
            sample_width,
            properties: self.properties,
            storage: *storage,
        };
        let Waveform { mut stages, mut envelope, mut properties } = self;
        pool.clear_voice();
        let ghost cleared_pool = *pool;
        let mut rendered: Vec<Stage> = Vec::new();
        let num_stages = stages.len();
        let ghost orig_stages = stages@;
        let mut k: usize = 0;
        proof {
            assert forall|rest: Seq<Stage>, mfin: Magnetron| #[trigger] stages_rendered(
                stages@,
                rest,
                *pool,
                mfin,
                ctx,
            ) implies stages_rendered(orig_stages, rendered@ + rest, cleared_pool, mfin, ctx) by {
                assert(rendered@ + rest =~= rest);
            };
        }
        while k < num_stages
            invariant
                pool.wf(),
                ctx_wf(ctx),
                pool.num_buffers() == old(pool).num_buffers(),
                pool.spec_block_len() == old(pool).spec_block_len(),
                pool.audio_in_view() == old(pool).audio_in_view(),
                k <= num_stages,
                stages@.len() == num_stages - k,
                rendered@.len() == k,
                forall|i: int|
                    0 <= i < stages@.len() ==> stage_wf(
                        #[trigger] stages@[i],
                        pool.num_buffers(),
                    ),
                forall|i: int|
                    0 <= i < rendered@.len() ==> stage_wf(
                        #[trigger] rendered@[i],
                        pool.num_buffers(),
                    ),
                forall|rest: Seq<Stage>, mfin: Magnetron| #[trigger] stages_rendered(
                    stages@,
                    rest,
                    *pool,
                    mfin,
                    ctx,
                ) ==> stages_rendered(orig_stages, rendered@ + rest, cleared_pool, mfin, ctx),
            decreases num_stages - k,
        {
            let ghost pending0 = stages@;
            let ghost rendered0 = rendered@;
            let ghost pool_before = *pool;
            let st = stages.remove(0);
            let ghost st_g = st;
            let st2 = st.render(pool, &ctx);
            rendered.push(st2);
            k = k + 1;
            proof {
                assert forall|rest: Seq<Stage>, mfin: Magnetron| #[trigger] stages_rendered(
                    stages@,
                    rest,
                    *pool,
                    mfin,
                    ctx,
                ) implies stages_rendered(
                    orig_stages,
                    rendered@ + rest,
                    cleared_pool,
                    mfin,
                    ctx,
                ) by {
                    let x = seq![st2] + rest;
                    assert(x.skip(1) =~= rest);
                    assert(x[0] == st2);
                    assert(pending0[0] == st_g);
                    assert(pending0.skip(1) =~= stages@);
                    assert(stages_rendered(pending0.skip(1), x.skip(1), *pool, mfin, ctx));
                    assert(stages_rendered(pending0, x, pool_before, mfin, ctx));
                    assert(stages_rendered(
                        orig_stages,
                        rendered0 + x,
                        cleared_pool,
                        mfin,
                        ctx,
                    ));
                    assert(rendered@ + rest =~= rendered0 + x);
                };
            }
        }
        proof {
            assert(stages_rendered(stages@, Seq::<Stage>::empty(), *pool, *pool, ctx));
            assert(rendered@ + Seq::<Stage>::empty() =~= rendered@);
            assert(stages_rendered(orig_stages, rendered@, cleared_pool, *pool, ctx));
        }
        let amp = envelope.next_amplitude(&ctx);
        let ghost staged_pool = *pool;
        let peak = pool.mix_voice(amp);
        properties.curr_amplitude = amp.mul(peak);
        proof {
            let ghost ctx2 = voice_ctx(*old(pool), self.properties, *storage, sample_width);
            let ghost ampv = env_amplitude(self.envelope, ctx2);
            let ghost nn = old(pool).spec_block_len();
            assert(ctx == ctx2);
            assert(amp.raw == ampv);
            assert(voice_cleared(*old(pool), cleared_pool));
            assert(stages_rendered(self.stages@, rendered@, cleared_pool, staged_pool, ctx2));
            assert((*pool).voice_out_view() == staged_pool.voice_out_view());
            assert(voice_pools_chain(
                self,
                Waveform { stages: rendered, envelope, properties },
                *old(pool),
                *pool,
                cleared_pool,
                staged_pool,
                *storage,
                sample_width,
            ));
            assert(forall|j: int|
                0 <= j < (*pool).num_buffers() ==> #[trigger] (*pool).buffer_at(j)
                    == staged_pool.buffer_at(j));
            assert(forall|i: int|
                0 <= i < nn ==> #[trigger] (*pool).total_view()[i] == clip_i64(
                    staged_pool.total_view()[i] + clip_i64(
                        crate::fx::div_trunc(
                            staged_pool.voice_out_view()[i] * ampv,
                            crate::fx::FX_ONE_RAW as int,
                        ),
                    ),
                ));
            assert(envelope == (Envelope {
                states: envelope.states,
                ..env_advanced(self.envelope, ctx2)
            }));
            assert(envelope.states@ == env_sampled(self.envelope, ctx2).0);
            assert(properties == (WaveformProperties {
                curr_amplitude: Fx {
                    raw: fx_mul(ampv, seq_peak((*pool).voice_out_view(), nn)) as i64,
                },
                ..self.properties
            }));
        }
        Waveform { stages: rendered, envelope, properties }
    }

    /// Marks the voice released: the envelope starts (or continues) its
    /// fade under the given damper pressure, and the off-velocity property
    /// is recorded.
    pub fn set_fade(&mut self, damper: Fx)
        requires
            env_wf(old(self).envelope),
        ensures
            env_wf(final(self).envelope),
            final(self).stages == old(self).stages,
            final(self).envelope == (Envelope {
                released: true,
                damper,
                ..old(self).envelope
            }),
            final(self).properties == (WaveformProperties {
                off_velocity_set: true,
                ..old(self).properties
            }),
    {
        self.envelope.set_fade(damper);
        self.properties.off_velocity_set = true;
    }
}

} // verus!
