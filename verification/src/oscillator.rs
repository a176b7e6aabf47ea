//! Oscillator stage: specification and per-block rendering.

use vstd::prelude::*;

use crate::buffer::{InBufferSpec, Magnetron, OutBufferSpec};
use crate::fx::{clip_i64, fx_add, fx_mul, Fx};
use crate::source::{
    av_states, av_value, av_wf, ctx_wf, next, phase_inc, shape_value, AutomatedValue, LfSource,
    RenderContext,
};

verus! {

/// The available oscillator shapes.
#[derive(Clone, Copy, PartialEq, Eq, Structural, Debug)]
pub enum OscillatorKind {
    Sin,
    Sin3,
    Triangle,
    Square,
    Sawtooth,
}

/// How the incoming buffer modulates the oscillator.
#[derive(Clone, PartialEq, Eq, Debug)]
pub enum Modulation {
    /// No modulation: the phase advances by `frequency · sample_secs`.
    Plain,
    /// The input sample is added to the phase.
    ByPhase { mod_buffer: InBufferSpec },
    /// The input sample (in Hz) is added to the frequency.
    ByFrequency { mod_buffer: InBufferSpec },
}

/// Specification of one oscillator stage.
pub struct Oscillator {
    pub kind: OscillatorKind,
    pub frequency: LfSource,
    pub modulation: Modulation,
    pub out_spec: crate::waveform::OutSpec,
}

/// A live oscillator stage: the compiled sources, the slot-state vector
/// and the running phase.
pub struct OscillatorStage {
    pub kind: OscillatorKind,
    pub modulation: Modulation,
    pub frequency: AutomatedValue,
    pub out_buffer: OutBufferSpec,
    pub out_level: AutomatedValue,
    pub states: Vec<u64>,
    pub phase: u64,
}

/// Well-formedness of a live oscillator stage against a pool with
/// `num_buffers` named buffers: compiled sources address valid slots,
/// buffer selectors are in range, and a modulation source never aliases
/// the destination.
pub open spec fn osc_wf(s: OscillatorStage, num_buffers: nat) -> bool {
    &&& av_wf(s.frequency, s.states@.len())
    &&& av_wf(s.out_level, s.states@.len())
    &&& (s.out_buffer matches OutBufferSpec::Buffer(j) ==> j < num_buffers)
    &&& match s.modulation {
        Modulation::Plain => true,
        Modulation::ByPhase { mod_buffer } => in_sel_wf(mod_buffer, s.out_buffer, num_buffers),
        Modulation::ByFrequency { mod_buffer } => in_sel_wf(
            mod_buffer,
            s.out_buffer,
            num_buffers,
        ),
    }
}

/// An input selector is in range and distinct from the destination.
pub open spec fn in_sel_wf(sel: InBufferSpec, out: OutBufferSpec, num_buffers: nat) -> bool {
    match sel {
        InBufferSpec::Buffer(j) => j < num_buffers && !(out matches OutBufferSpec::Buffer(k)
            && k == j),
        InBufferSpec::AudioIn => true,
    }
}

/// The input samples a selector reads during the block.
pub open spec fn in_samples(pool: Magnetron, sel: InBufferSpec) -> Seq<i64> {
    match sel {
        InBufferSpec::Buffer(j) => pool.buffer_at(j as int),
        InBufferSpec::AudioIn => pool.audio_in_view(),
    }
}

/// The oscillator phase before sample `i` of the block.
pub open spec fn osc_phase_at(
    phase0: u64,
    freq: int,
    sw: int,
    inputs: Seq<i64>,
    m: Modulation,
    i: nat,
) -> nat
    decreases i,
{
    if i == 0 {
        phase0 as nat
    } else {
        let prev = osc_phase_at(phase0, freq, sw, inputs, m, (i - 1) as nat);
        let f = match m {
            Modulation::ByFrequency { .. } => fx_add(freq, inputs[i - 1] as int),
            _ => freq,
        };
        ((prev + phase_inc(f, sw)) % 0x1_0000_0000_0000_0000) as nat
    }
}

/// The raw shape sample the oscillator produces at index `i`.
pub open spec fn osc_sample_at(
    phase0: u64,
    freq: int,
    sw: int,
    inputs: Seq<i64>,
    m: Modulation,
    kind: OscillatorKind,
    i: nat,
) -> int {
    let p = osc_phase_at(phase0, freq, sw, inputs, m, i);
    match m {
        Modulation::ByPhase { .. } => shape_value(
            kind,
            ((p + phase_inc(inputs[i as int] as int, 0x1_0000_0000)) % 0x1_0000_0000_0000_0000)
                as u64,
        ),
        _ => shape_value(kind, p as u64),
    }
}


/// The exact block-render relation of an oscillator stage: `post` and the
/// pool after the block are determined by `pre` and the pool before it.
pub open spec fn osc_render_rel(
    pre: OscillatorStage,
    post: OscillatorStage,
    p0: Magnetron,
    p1: Magnetron,
    ctx: RenderContext,
) -> bool {
    let vf = av_value(pre.frequency, pre.states@, ctx);
    let st1 = av_states(pre.frequency, pre.states@, ctx);
    let lvl = av_value(pre.out_level, st1, ctx);
    let st2 = av_states(pre.out_level, st1, ctx);
    let inputs = match pre.modulation {
        Modulation::ByPhase { mod_buffer } => in_samples(p0, mod_buffer),
        Modulation::ByFrequency { mod_buffer } => in_samples(p0, mod_buffer),
        Modulation::Plain => Seq::<i64>::empty(),
    };
    let n = p0.spec_block_len();
    &&& p1.wf()
    &&& p1.num_buffers() == p0.num_buffers()
    &&& p1.spec_block_len() == p0.spec_block_len()
    &&& p1.audio_in_view() == p0.audio_in_view()
    &&& p1.total_view() == p0.total_view()
    &&& post.kind == pre.kind
    &&& post.modulation == pre.modulation
    &&& post.frequency == pre.frequency
    &&& post.out_buffer == pre.out_buffer
    &&& post.out_level == pre.out_level
    &&& post.states@ == st2
    &&& post.phase == osc_phase_at(pre.phase, vf, ctx.sample_width.raw as int, inputs, pre.modulation, n)
    &&& forall|i: int|
        0 <= i < n ==> #[trigger] dest_at(p1, pre.out_buffer)[i] == clip_i64(
            dest_at(p0, pre.out_buffer)[i] + fx_mul(
                lvl,
                osc_sample_at(
                    pre.phase,
                    vf,
                    ctx.sample_width.raw as int,
                    inputs,
                    pre.modulation,
                    pre.kind,
                    i as nat,
                ),
            ),
        )
    &&& forall|j: int|
        0 <= j < p0.num_buffers() && !(pre.out_buffer matches OutBufferSpec::Buffer(k) && k == j)
            ==> #[trigger] p1.buffer_at(j) == p0.buffer_at(j)
    &&& (pre.out_buffer matches OutBufferSpec::Buffer(_) ==> p1.voice_out_view()
        == p0.voice_out_view())
}

impl Oscillator {
    /// Instantiates the specification into a live stage: the frequency and
    /// level sources are compiled against the creator's templates, and the
    /// buffer selectors are checked against the pool.  Succeeds exactly
    /// when the sources compile and the selectors are in range and
    /// alias-free.
    pub fn create_stage(&self, creator: &crate::creator::Creator, num_buffers: usize) -> (r:
        Result<OscillatorStage, crate::creator::ConfigError>)
        requires
            crate::creator::creator_wf(*creator),
        ensures
            r is Ok <==> crate::creator::oscillator_spec_ok(
                *self,
                creator.templates@,
                creator.templates@.len() + 1,
                num_buffers as nat,
            ),
            r matches Ok(st) ==> osc_wf(st, num_buffers as nat) && st.phase == 0,
            r matches Ok(st) ==> st.kind == self.kind && st.modulation == self.modulation
                && st.out_buffer == self.out_spec.out_buffer && crate::creator::compiled_matches(
                self.frequency,
                st.frequency,
                creator.templates@,
                (creator.templates@.len() + 1) as nat,
            ) && crate::creator::compiled_matches(
                self.out_spec.out_level,
                st.out_level,
                creator.templates@,
                (creator.templates@.len() + 1) as nat,
            ),
    {
        crate::creator::create_oscillator_stage(creator, self, num_buffers)
    }
}

impl OscillatorStage {
    /// Renders one block: the frequency and level are sampled once, then
    /// each sample of the block adds `level · shape(phase)` into the
    /// destination, with the phase advanced per sample according to the
    /// modulation mode.
    #[verifier::rlimit(60)]
    pub fn render(self, pool: &mut Magnetron, ctx: &RenderContext) -> (r: OscillatorStage)
        requires
            old(pool).wf(),
            osc_wf(self, old(pool).num_buffers()),
            ctx_wf(*ctx),
        ensures
            osc_wf(r, final(pool).num_buffers()),
            osc_render_rel(self, r, *old(pool), *final(pool), *ctx),
    {
        let OscillatorStage { kind, modulation, frequency, out_buffer, out_level, mut states, mut phase } =
            self;
        let ghost st0 = states@;
        let vf = next(&frequency, &mut states, ctx);
        let lvl = next(&out_level, &mut states, ctx);
        let ghost inputs = match modulation {
            Modulation::ByPhase { mod_buffer } => in_samples(*old(pool), mod_buffer),
            Modulation::ByFrequency { mod_buffer } => in_samples(*old(pool), mod_buffer),
            Modulation::Plain => Seq::<i64>::empty(),
        };
        let n = pool.len();
        let sw = ctx.sample_width;
        let mut i: usize = 0;
        while i < n
            invariant
                pool.wf(),
                n == pool.spec_block_len(),
                i <= n,
                pool.num_buffers() == old(pool).num_buffers(),
                pool.audio_in_view() == old(pool).audio_in_view(),
                pool.total_view() == old(pool).total_view(),
                osc_wf(
                    OscillatorStage {
                        kind,
                        modulation: modulation,
                        frequency: frequency,
                        out_buffer,
                        out_level: out_level,
                        states: states,
                        phase,
                    },
                    pool.num_buffers(),
                ),
                inputs == (match modulation {
                    Modulation::ByPhase { mod_buffer } => in_samples(*old(pool), mod_buffer),
                    Modulation::ByFrequency { mod_buffer } => in_samples(*old(pool), mod_buffer),
                    Modulation::Plain => Seq::<i64>::empty(),
                }),
                phase == osc_phase_at(
                    self.phase,
                    av_value(self.frequency, st0, *ctx),
                    sw.raw as int,
                    inputs,
                    modulation,
                    i as nat,
                ),
                vf.raw == av_value(self.frequency, st0, *ctx),
                lvl.raw == av_value(
                    self.out_level,
                    av_states(self.frequency, st0, *ctx),
                    *ctx,
                ),
                forall|k: int|
                    0 <= k < i ==> #[trigger] dest_at(*pool, out_buffer)[k] == clip_i64(
                        dest_at(*old(pool), out_buffer)[k] + fx_mul(
                            lvl.raw as int,
                            osc_sample_at(
                                self.phase,
                                vf.raw as int,
                                sw.raw as int,
                                inputs,
                                modulation,
                                kind,
                                k as nat,
                            ),
                        ),
                    ),
                forall|k: int|
                    i <= k < n ==> #[trigger] dest_at(*pool, out_buffer)[k] == dest_at(
                        *old(pool),
                        out_buffer,
                    )[k],
                forall|j: int|
                    0 <= j < pool.num_buffers() && !(out_buffer matches OutBufferSpec::Buffer(k)
                        && k == j) ==> #[trigger] pool.buffer_at(j) == old(pool).buffer_at(j),
                (out_buffer matches OutBufferSpec::Buffer(_) ==> pool.voice_out_view() == old(
                    pool,
                ).voice_out_view()),
            decreases n - i,
        {
            let sample: Fx = match &modulation {
                Modulation::Plain => {
                    let s = crate::source::apply_shape(kind, phase);
                    phase = advance_phase(phase, vf, sw);
                    s
                },
                Modulation::ByPhase { mod_buffer } => {
                    let input = pool.read(*mod_buffer, i);
                    proof {
                        assert(input.raw == inputs[i as int]);
                    }
                    let offset = wrap_offset(input);
                    let s = crate::source::apply_shape(kind, phase.wrapping_add(offset));
                    phase = advance_phase(phase, vf, sw);
                    s
                },
                Modulation::ByFrequency { mod_buffer } => {
                    let input = pool.read(*mod_buffer, i);
                    proof {
                        assert(input.raw == inputs[i as int]);
                    }
                    let s = crate::source::apply_shape(kind, phase);
                    phase = advance_phase(phase, vf.add(input), sw);
                    s
                },
            };
            proof {
                assert(sample.raw == osc_sample_at(
                    self.phase,
                    vf.raw as int,
                    sw.raw as int,
                    inputs,
                    modulation,
                    kind,
                    i as nat,
                ));
                assert(phase == osc_phase_at(
                    self.phase,
                    vf.raw as int,
                    sw.raw as int,
                    inputs,
                    modulation,
                    (i + 1) as nat,
                ));
            }
            let ghost pool_before = *pool;
            pool.add(out_buffer, i, lvl.mul(sample));
            proof {
                assert(dest_at(*pool, out_buffer) == dest_at(pool_before, out_buffer).update(
                    i as int,
                    clip_i64(
                        dest_at(pool_before, out_buffer)[i as int] + fx_mul(
                            lvl.raw as int,
                            osc_sample_at(
                                self.phase,
                                vf.raw as int,
                                sw.raw as int,
                                inputs,
                                modulation,
                                kind,
                                i as nat,
                            ),
                        ),
                    ) as i64,
                ));
            }
            i = i + 1;
        }
        OscillatorStage { kind, modulation, frequency, out_buffer, out_level, states, phase }
    }
}

/// The destination samples a selector addresses.
pub open spec fn dest_at(pool: Magnetron, out: OutBufferSpec) -> Seq<i64> {
    match out {
        OutBufferSpec::Buffer(j) => pool.buffer_at(j as int),
        OutBufferSpec::AudioOut => pool.voice_out_view(),
    }
}

/// Advances a phase by `freq · sample_width` of a turn.
fn advance_phase(phase: u64, freq: Fx, sw: Fx) -> (r: u64)
    ensures
        r == (phase + phase_inc(freq.raw as int, sw.raw as int)) % 0x1_0000_0000_0000_0000,
{
    proof {
        crate::fx::lemma_i64_mul_bounds(freq.raw as int, sw.raw as int);
    }
    let wide: i128 = (freq.raw as i128) * (sw.raw as i128);
    let inc = crate::source::wrap_to_u64(wide);
    phase.wrapping_add(inc)
}

/// Turns a Q32.32 sample into a Q64 phase offset, wrapped.
fn wrap_offset(s: Fx) -> (r: u64)
    ensures
        r == phase_inc(s.raw as int, 0x1_0000_0000),
{
    proof {
        crate::fx::lemma_i64_mul_bounds(s.raw as int, 0x1_0000_0000);
    }
    let wide: i128 = (s.raw as i128) * 0x1_0000_0000i128;
    crate::source::wrap_to_u64(wide)
}

} // verus!
