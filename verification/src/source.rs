//! The low-frequency control-source evaluator.
//!
//! An [`LfSource`] is the declarative expression form found in waveform
//! specifications; it may refer to named templates.  Stage creation expands
//! templates and compiles the expression into an [`AutomatedValue`], whose
//! stateful leaves (low-frequency oscillators and time envelopes) keep
//! their state in numbered slots of a side vector, so that the expression
//! tree itself stays immutable.  [`next`] samples a compiled source once
//! per block; its exact value and state transition are pinned down by
//! [`av_value`] and [`av_states`].

use vstd::prelude::*;

use crate::fx::{fx_add, fx_clamp01, fx_div, fx_mul, fx_sub, Fx, FX_ONE_RAW};
use crate::functions;
use crate::oscillator::OscillatorKind;
use crate::synth::{storage_read, ControlStorage, SynthControl};
use crate::waveform::{property_value, WaveformProperties, WaveformProperty};

verus! {

/// A low-frequency source expression, as written in a waveform
/// specification.
#[derive(Debug)]
pub enum LfSource {
    /// A constant.
    Value(Fx),
    /// A reference to a named template.
    Template(String),
    /// A property of the playing voice.
    Property(WaveformProperty),
    /// A live controller value, linearly mapped to `[map0, map1]`.
    Controller { kind: SynthControl, map0: Box<LfSource>, map1: Box<LfSource> },
    /// A free-running low-frequency oscillator.
    Oscillator {
        kind: OscillatorKind,
        frequency: Box<LfSource>,
        baseline: Box<LfSource>,
        amplitude: Box<LfSource>,
    },
    /// A voice-local ramp from `from` to `to` between `start` and `end`
    /// seconds.
    Time {
        start: Box<LfSource>,
        end: Box<LfSource>,
        from: Box<LfSource>,
        to: Box<LfSource>,
    },
    /// The input clamped to `[0, 1]` and linearly mapped to `[map0, map1]`.
    Linear { input: Box<LfSource>, map0: Box<LfSource>, map1: Box<LfSource> },
    /// `2^(x/12)`: a semitone count turned into a frequency factor.
    Semitones(Box<LfSource>),
    /// Pointwise sum.
    Add(Box<LfSource>, Box<LfSource>),
    /// Pointwise product.
    Mul(Box<LfSource>, Box<LfSource>),
}

impl LfSource {
    /// A reference to the template with the given name.
    pub fn template(name: &str) -> (r: LfSource)
        ensures
            r matches LfSource::Template(n) && n@ == name@,
    {
        LfSource::Template(name.to_owned())
    }
}

/// A compiled low-frequency source: templates are expanded and every
/// stateful leaf carries the slot of its state in the side vector.
pub enum AutomatedValue {
    Value(Fx),
    Property(WaveformProperty),
    Controller { kind: SynthControl, map0: Box<AutomatedValue>, map1: Box<AutomatedValue> },
    Oscillator {
        kind: OscillatorKind,
        slot: usize,
        frequency: Box<AutomatedValue>,
        baseline: Box<AutomatedValue>,
        amplitude: Box<AutomatedValue>,
    },
    Time {
        slot: usize,
        start: Box<AutomatedValue>,
        end: Box<AutomatedValue>,
        from: Box<AutomatedValue>,
        to: Box<AutomatedValue>,
    },
    Linear {
        input: Box<AutomatedValue>,
        map0: Box<AutomatedValue>,
        map1: Box<AutomatedValue>,
    },
    Semitones(Box<AutomatedValue>),
    Add(Box<AutomatedValue>, Box<AutomatedValue>),
    Mul(Box<AutomatedValue>, Box<AutomatedValue>),
}

/// Everything a block-rate evaluation can read: the block and sample
/// durations, the voice's property record and the live control storage.
#[derive(Clone, Copy)]
pub struct RenderContext {
    pub block_secs: Fx,
    pub sample_width: Fx,
    pub properties: WaveformProperties,
    pub storage: ControlStorage,
}

/// Well-formedness of a context: durations are nonnegative.
pub open spec fn ctx_wf(ctx: RenderContext) -> bool {
    &&& ctx.block_secs.raw >= 0
    &&& ctx.sample_width.raw >= 0
}

/// Well-formedness of a compiled source: every state slot lies below `n`.
pub open spec fn av_wf(s: AutomatedValue, n: nat) -> bool
    decreases s,
{
    match s {
        AutomatedValue::Value(_) => true,
        AutomatedValue::Property(_) => true,
        AutomatedValue::Controller { map0, map1, .. } => av_wf(*map0, n) && av_wf(*map1, n),
        AutomatedValue::Oscillator { slot, frequency, baseline, amplitude, .. } => slot < n
            && av_wf(*frequency, n) && av_wf(*baseline, n) && av_wf(*amplitude, n),
        AutomatedValue::Time { slot, start, end, from, to } => slot < n && av_wf(*start, n)
            && av_wf(*end, n) && av_wf(*from, n) && av_wf(*to, n),
        AutomatedValue::Linear { input, map0, map1 } => av_wf(*input, n) && av_wf(*map0, n)
            && av_wf(*map1, n),
        AutomatedValue::Semitones(x) => av_wf(*x, n),
        AutomatedValue::Add(a, b) => av_wf(*a, n) && av_wf(*b, n),
        AutomatedValue::Mul(a, b) => av_wf(*a, n) && av_wf(*b, n),
    }
}

/// The raw sample of an oscillator shape at a Q64 phase.
#[verifier::opaque]
pub open spec fn shape_value(kind: OscillatorKind, phase: u64) -> int {
    match kind {
        OscillatorKind::Sin => functions::sin_spec(phase),
        OscillatorKind::Sin3 => functions::cube_spec(functions::sin_spec(phase)),
        OscillatorKind::Triangle => functions::triangle_spec(phase),
        OscillatorKind::Square => functions::square_spec(phase),
        OscillatorKind::Sawtooth => functions::sawtooth_spec(phase),
    }
}

/// The phase increment of a full block: `frequency · block_secs` as a Q64
/// fraction of a turn, wrapped.
pub open spec fn phase_inc(freq_raw: int, secs_raw: int) -> nat {
    ((freq_raw * secs_raw) % 0x1_0000_0000_0000_0000) as nat
}

/// A state slot read as a nonnegative Q32.32 value, saturating.
pub open spec fn sat_state(v: u64) -> int {
    if v > 0x7FFF_FFFF_FFFF_FFFF {
        0x7FFF_FFFF_FFFF_FFFFint
    } else {
        v as int
    }
}

/// An exponent clamped into the domain of the Q32.32 exponential.
pub open spec fn clamp_exp(v: int) -> int {
    if v >= 0x4000_0000_0000_0000 {
        0x3FFF_FFFF_FFFF_FFFFint
    } else if v <= -0x4000_0000_0000_0000 {
        -0x3FFF_FFFF_FFFF_FFFFint
    } else {
        v
    }
}

/// The value produced by sampling a compiled source against the given
/// state vector.  Children are evaluated left to right, each seeing the
/// states its left siblings produced, exactly as the executable code does.
pub open spec fn av_value(s: AutomatedValue, st: Seq<u64>, ctx: RenderContext) -> int
    decreases s,
{
    match s {
        AutomatedValue::Value(v) => v.raw as int,
        AutomatedValue::Property(k) => property_value(k, ctx.properties),
        AutomatedValue::Controller { kind, map0, map1 } => {
            let v0 = av_value(*map0, st, ctx);
            let st1 = av_states(*map0, st, ctx);
            let v1 = av_value(*map1, st1, ctx);
            fx_add(v0, fx_mul(storage_read(ctx.storage, kind), fx_sub(v1, v0)))
        },
        AutomatedValue::Oscillator { kind, slot, frequency, baseline, amplitude } => {
            let st1 = av_states(*frequency, st, ctx);
            let vb = av_value(*baseline, st1, ctx);
            let st2 = av_states(*baseline, st1, ctx);
            let va = av_value(*amplitude, st2, ctx);
            let st3 = av_states(*amplitude, st2, ctx);
            let phase = st3[slot as int];
            fx_add(vb, fx_mul(va, shape_value(kind, phase)))
        },
        AutomatedValue::Time { slot, start, end, from, to } => {
            let vs = av_value(*start, st, ctx);
            let st1 = av_states(*start, st, ctx);
            let ve = av_value(*end, st1, ctx);
            let st2 = av_states(*end, st1, ctx);
            let vf = av_value(*from, st2, ctx);
            let st3 = av_states(*from, st2, ctx);
            let vt = av_value(*to, st3, ctx);
            let st4 = av_states(*to, st3, ctx);
            let t = sat_state(st4[slot as int]);
            if t <= vs {
                vf
            } else if t >= ve {
                vt
            } else {
                fx_add(vf, fx_mul(fx_sub(vt, vf), fx_div(fx_sub(t, vs), fx_sub(ve, vs))))
            }
        },
        AutomatedValue::Linear { input, map0, map1 } => {
            let vin = av_value(*input, st, ctx);
            let st1 = av_states(*input, st, ctx);
            let v0 = av_value(*map0, st1, ctx);
            let st2 = av_states(*map0, st1, ctx);
            let v1 = av_value(*map1, st2, ctx);
            fx_add(v0, fx_mul(fx_clamp01(vin), fx_sub(v1, v0)))
        },
        AutomatedValue::Semitones(x) => {
            let vx = av_value(*x, st, ctx);
            crate::pitch::exp2_fx_of(clamp_exp(fx_div(vx, 12 * FX_ONE_RAW as int)))
        },
        AutomatedValue::Add(a, b) => {
            let va = av_value(*a, st, ctx);
            let st1 = av_states(*a, st, ctx);
            let vb = av_value(*b, st1, ctx);
            fx_add(va, vb)
        },
        AutomatedValue::Mul(a, b) => {
            let va = av_value(*a, st, ctx);
            let st1 = av_states(*a, st, ctx);
            let vb = av_value(*b, st1, ctx);
            fx_mul(va, vb)
        },
    }
}

/// The state vector after sampling a compiled source.
pub open spec fn av_states(s: AutomatedValue, st: Seq<u64>, ctx: RenderContext) -> Seq<u64>
    decreases s,
{
    match s {
        AutomatedValue::Value(_) => st,
        AutomatedValue::Property(_) => st,
        AutomatedValue::Controller { map0, map1, .. } => av_states(
            *map1,
            av_states(*map0, st, ctx),
            ctx,
        ),
        AutomatedValue::Oscillator { slot, frequency, baseline, amplitude, .. } => {
            let vf = av_value(*frequency, st, ctx);
            let st1 = av_states(*frequency, st, ctx);
            let st2 = av_states(*baseline, st1, ctx);
            let st3 = av_states(*amplitude, st2, ctx);
            let phase = st3[slot as int];
            st3.update(
                slot as int,
                ((phase + phase_inc(vf, ctx.block_secs.raw as int)) % 0x1_0000_0000_0000_0000)
                    as u64,
            )
        },
        AutomatedValue::Time { slot, start, end, from, to } => {
            let st1 = av_states(*start, st, ctx);
            let st2 = av_states(*end, st1, ctx);
            let st3 = av_states(*from, st2, ctx);
            let st4 = av_states(*to, st3, ctx);
            let t = sat_state(st4[slot as int]);
            st4.update(slot as int, fx_add(t, ctx.block_secs.raw as int) as u64)
        },
        AutomatedValue::Linear { input, map0, map1 } => av_states(
            *map1,
            av_states(*map0, av_states(*input, st, ctx), ctx),
            ctx,
        ),
        AutomatedValue::Semitones(x) => av_states(*x, st, ctx),
        AutomatedValue::Add(a, b) => av_states(*b, av_states(*a, st, ctx), ctx),
        AutomatedValue::Mul(a, b) => av_states(*b, av_states(*a, st, ctx), ctx),
    }
}

/// Sampling preserves the length of the state vector.
pub proof fn lemma_av_states_len(s: AutomatedValue, st: Seq<u64>, ctx: RenderContext)
    requires
        av_wf(s, st.len()),
    ensures
        av_states(s, st, ctx).len() == st.len(),
    decreases s,
{
    match s {
        AutomatedValue::Value(_) => {},
        AutomatedValue::Property(_) => {},
        AutomatedValue::Controller { map0, map1, .. } => {
            lemma_av_states_len(*map0, st, ctx);
            lemma_av_states_len(*map1, av_states(*map0, st, ctx), ctx);
        },
        AutomatedValue::Oscillator { frequency, baseline, amplitude, .. } => {
            lemma_av_states_len(*frequency, st, ctx);
            let st1 = av_states(*frequency, st, ctx);
            lemma_av_states_len(*baseline, st1, ctx);
            let st2 = av_states(*baseline, st1, ctx);
            lemma_av_states_len(*amplitude, st2, ctx);
        },
        AutomatedValue::Time { start, end, from, to, .. } => {
            lemma_av_states_len(*start, st, ctx);
            let st1 = av_states(*start, st, ctx);
            lemma_av_states_len(*end, st1, ctx);
            let st2 = av_states(*end, st1, ctx);
            lemma_av_states_len(*from, st2, ctx);
            let st3 = av_states(*from, st2, ctx);
            lemma_av_states_len(*to, st3, ctx);
        },
        AutomatedValue::Linear { input, map0, map1 } => {
            lemma_av_states_len(*input, st, ctx);
            let st1 = av_states(*input, st, ctx);
            lemma_av_states_len(*map0, st1, ctx);
            let st2 = av_states(*map0, st1, ctx);
            lemma_av_states_len(*map1, st2, ctx);
        },
        AutomatedValue::Semitones(x) => {
            lemma_av_states_len(*x, st, ctx);
        },
        AutomatedValue::Add(a, b) => {
            lemma_av_states_len(*a, st, ctx);
            lemma_av_states_len(*b, av_states(*a, st, ctx), ctx);
        },
        AutomatedValue::Mul(a, b) => {
            lemma_av_states_len(*a, st, ctx);
            lemma_av_states_len(*b, av_states(*a, st, ctx), ctx);
        },
    }
}

/// Wraps a wide product into a `u64`, matching the Euclidean remainder.
pub(crate) fn wrap_to_u64(wide: i128) -> (r: u64)
    requires
        wide > -0x8000_0000_0000_0000_0000_0000_0000_0000,
    ensures
        r == (wide as int) % 0x1_0000_0000_0000_0000,
{
    if wide >= 0 {
        ((wide as u128) % 0x1_0000_0000_0000_0000u128) as u64
    } else {
        let m = ((-wide) as u128) % 0x1_0000_0000_0000_0000u128;
        proof {
            lemma_mod_of_neg(wide as int, 0x1_0000_0000_0000_0000);
        }
        if m == 0 {
            0
        } else {
            (0x1_0000_0000_0000_0000u128 - m) as u64
        }
    }
}

/// The Euclidean remainder of a negated value.
proof fn lemma_mod_of_neg(v: int, m: int)
    requires
        v < 0,
        m >= 2,
    ensures
        (-v) % m == 0 ==> v % m == 0,
        (-v) % m != 0 ==> v % m == m - ((-v) % m),
{
    let q = (-v) / m;
    let r = (-v) % m;
    vstd::arithmetic::div_mod::lemma_fundamental_div_mod(-v, m);
    if r == 0 {
        assert(v == m * (-q) + 0) by (nonlinear_arith)
            requires
                -v == m * q,
        ;
        vstd::arithmetic::div_mod::lemma_fundamental_div_mod_converse(v, m, -q, 0);
    } else {
        assert(v == m * (-q - 1) + (m - r)) by (nonlinear_arith)
            requires
                -v == m * q + r,
        ;
        vstd::arithmetic::div_mod::lemma_fundamental_div_mod_converse(v, m, -q - 1, m - r);
    }
}

/// Applies an oscillator shape to a phase.
pub fn apply_shape(kind: OscillatorKind, phase: u64) -> (r: Fx)
    ensures
        r.raw == shape_value(kind, phase),
        -FX_ONE_RAW <= r.raw <= FX_ONE_RAW,
{
    proof {
        reveal(shape_value);
    }
    match kind {
        OscillatorKind::Sin => functions::sin(phase),
        OscillatorKind::Sin3 => functions::sin3(phase),
        OscillatorKind::Triangle => functions::triangle(phase),
        OscillatorKind::Square => functions::square(phase),
        OscillatorKind::Sawtooth => functions::sawtooth(phase),
    }
}

/// Samples a compiled source once, reading and updating the slot states.
pub fn next(s: &AutomatedValue, states: &mut Vec<u64>, ctx: &RenderContext) -> (r: Fx)
    requires
        av_wf(*s, old(states)@.len()),
        ctx_wf(*ctx),
    ensures
        final(states)@ == av_states(*s, old(states)@, *ctx),
        final(states)@.len() == old(states)@.len(),
        r.raw == av_value(*s, old(states)@, *ctx),
    decreases *s,
{
    proof {
        lemma_av_states_len(*s, old(states)@, *ctx);
    }
    match s {
        AutomatedValue::Value(v) => *v,
        AutomatedValue::Property(k) => crate::waveform::read_property(*k, &ctx.properties),
        AutomatedValue::Controller { kind, map0, map1 } => {
            let v0 = next(&**map0, states, ctx);
            let v1 = next(&**map1, states, ctx);
            let c = ctx.storage.read(*kind);
            v0.add(c.mul(v1.sub(v0)))
        },
        AutomatedValue::Oscillator { kind, slot, frequency, baseline, amplitude } => {
            let vf = next(&**frequency, states, ctx);
            let vb = next(&**baseline, states, ctx);
            let va = next(&**amplitude, states, ctx);
            let phase = states[*slot];
            let sample = apply_shape(*kind, phase);
            proof {
                crate::fx::lemma_i64_mul_bounds(vf.raw as int, ctx.block_secs.raw as int);
            }
            let wide: i128 = (vf.raw as i128) * (ctx.block_secs.raw as i128);
            let inc = wrap_to_u64(wide);
            states.set(*slot, phase.wrapping_add(inc));
            proof {
                vstd::arithmetic::div_mod::lemma_add_mod_noop(
                    phase as int,
                    inc as int,
                    0x1_0000_0000_0000_0000,
                );
                assert((phase as int % 0x1_0000_0000_0000_0000) == phase as int);
                assert((inc as int % 0x1_0000_0000_0000_0000) == inc as int);
            }
            vb.add(va.mul(sample))
        },
        AutomatedValue::Time { slot, start, end, from, to } => {
            let vs = next(&**start, states, ctx);
            let ve = next(&**end, states, ctx);
            let vf = next(&**from, states, ctx);
            let vt = next(&**to, states, ctx);
            let traw = states[*slot];
            let t = Fx {
                raw: if traw > 0x7FFF_FFFF_FFFF_FFFFu64 {
                    i64::MAX
                } else {
                    traw as i64
                },
            };
            let value = if t.le(vs) {
                vf
            } else if ve.le(t) {
                vt
            } else {
                vf.add(vt.sub(vf).mul(t.sub(vs).div(ve.sub(vs))))
            };
            states.set(*slot, t.add(ctx.block_secs).raw as u64);
            value
        },
        AutomatedValue::Linear { input, map0, map1 } => {
            let vin = next(&**input, states, ctx);
            let v0 = next(&**map0, states, ctx);
            let v1 = next(&**map1, states, ctx);
            v0.add(vin.clamp01().mul(v1.sub(v0)))
        },
        AutomatedValue::Semitones(x) => {
            let vx = next(&**x, states, ctx);
            let step = vx.div(Fx { raw: 12 * FX_ONE_RAW });
            let clamped = if step.raw >= 0x4000_0000_0000_0000 {
                Fx { raw: 0x3FFF_FFFF_FFFF_FFFF }
            } else if step.raw <= -0x4000_0000_0000_0000 {
                Fx { raw: -0x3FFF_FFFF_FFFF_FFFF }
            } else {
                step
            };
            crate::pitch::exp2_fx(clamped)
        },
        AutomatedValue::Add(a, b) => {
            let va = next(&**a, states, ctx);
            let vb = next(&**b, states, ctx);
            va.add(vb)
        },
        AutomatedValue::Mul(a, b) => {
            let va = next(&**a, states, ctx);
            let vb = next(&**b, states, ctx);
            va.mul(vb)
        },
    }
}

} // verus!
