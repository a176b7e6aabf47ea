//! The built-in configuration: templates, envelopes and waveforms.
//!
//! The construction helpers at the bottom keep the data dense; every
//! numeric parameter is an exact fraction.

use vstd::prelude::*;

use crate::buffer::{InBufferSpec, OutBufferSpec};
use crate::envelope::{EnvelopeSpec, NamedEnvelopeSpec};
use crate::filter::{Filter, FilterKind, RingModulator};
use crate::fx::Fx;
use crate::oscillator::{Modulation, Oscillator, OscillatorKind};
use crate::signal::{SignalKind, SignalSpec};
use crate::source::LfSource;
use crate::synth::SynthControl;
use crate::waveform::{
    OutSpec, StageSpec, TemplateSpec, WaveformProperty, WaveformSpec,
};
use crate::waveguide::{Reflectance, WaveguideSpec};

verus! {

/// The on-disk configuration: templates, envelopes, waveforms and the
/// global effects chain.
pub struct MicrowaveConfig {
    pub waveform_templates: Vec<TemplateSpec>,
    pub waveform_envelopes: Vec<NamedEnvelopeSpec>,
    pub waveforms: Vec<WaveformSpec>,
    pub effect_templates: Vec<TemplateSpec>,
    pub effects: Vec<EffectSpec>,
}

/// A stage of the global effects chain.  The built-in configuration
/// enables none (their gains default to silence); the chain is carried as
/// configuration data.
pub enum EffectSpec {
    Echo(EchoSpec),
    SchroederReverb(SchroederReverbSpec),
    RotarySpeaker(RotarySpeakerSpec),
}

/// A feedback echo.
pub struct EchoSpec {
    pub buffer_size: usize,
    pub gain: LfSource,
    pub delay_time: LfSource,
    pub feedback: LfSource,
    pub feedback_rotation: LfSource,
}

/// A Schroeder reverb: allpasses into parallel combs.
pub struct SchroederReverbSpec {
    pub buffer_size: usize,
    pub gain: LfSource,
    pub allpasses: Vec<LfSource>,
    pub allpass_feedback: LfSource,
    pub combs: Vec<(LfSource, LfSource)>,
    pub comb_feedback: LfSource,
    pub cutoff: LfSource,
}

/// A rotary-speaker simulation.
pub struct RotarySpeakerSpec {
    pub buffer_size: usize,
    pub gain: LfSource,
    pub rotation_radius: LfSource,
    pub speed: LfSource,
    pub acceleration: LfSource,
    pub deceleration: LfSource,
}

/// The raw Q32.32 value of an exact fraction.
pub open spec fn frac_raw(numer: int, denom: int) -> int {
    crate::fx::clip_i64(crate::fx::div_trunc(numer * crate::fx::FX_ONE_RAW, denom))
}

/// A constant source holding the exact fraction `numer / denom`.
pub open spec fn is_frac_val(s: LfSource, numer: int, denom: int) -> bool {
    s matches LfSource::Value(v) && v.raw == frac_raw(numer, denom)
}

/// A reference to the named template.
pub open spec fn is_tmpl(s: LfSource, name: Seq<char>) -> bool {
    s matches LfSource::Template(t) && t@ == name
}

/// The waveform pitch scaled by the exact factor `numer / denom`.
pub open spec fn is_pitch_partial(s: LfSource, numer: int, denom: int) -> bool {
    s matches LfSource::Mul(a, b) && is_frac_val(*a, numer, denom) && is_tmpl(
        *b,
        "WaveformPitch"@,
    )
}

/// An envelope built from the `Velocity` and `Fadeout` templates with the
/// given exact attack, decay and release fractions.
pub open spec fn env_params_ok(
    e: EnvelopeSpec,
    an: int,
    ad: int,
    dn: int,
    dd: int,
    rn: int,
    rd: int,
) -> bool {
    &&& is_tmpl(e.amplitude, "Velocity"@)
    &&& is_tmpl(e.fadeout, "Fadeout"@)
    &&& is_frac_val(e.attack_time, an, ad)
    &&& is_frac_val(e.decay_rate, dn, dd)
    &&& is_frac_val(e.release_time, rn, rd)
}

/// A plain sine partial at `fnum / fden` times the waveform pitch, mixed
/// into the audio output at the exact level `lnum / lden`.
pub open spec fn sin_partial_ok(st: StageSpec, fnum: int, fden: int, lnum: int, lden: int) -> bool {
    st matches StageSpec::Oscillator(o) && o.kind == OscillatorKind::Sin && (if fnum == 1 && fden
        == 1 {
        is_tmpl(o.frequency, "WaveformPitch"@)
    } else {
        is_pitch_partial(o.frequency, fnum, fden)
    }) && o.modulation == Modulation::Plain && o.out_spec.out_buffer == OutBufferSpec::AudioOut
        && is_frac_val(o.out_spec.out_level, lnum, lden)
}

/// The six built-in templates: the five voice properties under their
/// names, and the damper-controlled fadeout.
pub open spec fn builtin_templates_ok(ts: Seq<TemplateSpec>) -> bool {
    &&& ts.len() == 6
    &&& ts[0].name@ == "WaveformPitch"@ && ts[0].value == LfSource::Property(
        WaveformProperty::WaveformPitch,
    )
    &&& ts[1].name@ == "WaveformPeriod"@ && ts[1].value == LfSource::Property(
        WaveformProperty::WaveformPeriod,
    )
    &&& ts[2].name@ == "Velocity"@ && ts[2].value == LfSource::Property(
        WaveformProperty::Velocity,
    )
    &&& ts[3].name@ == "KeyPressure"@ && ts[3].value == LfSource::Property(
        WaveformProperty::KeyPressure,
    )
    &&& ts[4].name@ == "OffVelocity"@ && ts[4].value == LfSource::Property(
        WaveformProperty::OffVelocity,
    )
    &&& ts[5].name@ == "Fadeout"@ && (ts[5].value matches LfSource::Controller {
        kind,
        map0,
        map1,
    } && kind == SynthControl::Damper && *map0 == LfSource::Property(
        WaveformProperty::OffVelocitySet,
    ) && is_frac_val(*map1, 0, 1))
}

/// The four built-in envelopes with their exact parameters.
pub open spec fn builtin_envelopes_ok(es: Seq<NamedEnvelopeSpec>) -> bool {
    &&& es.len() == 4
    &&& es[0].name@ == "Organ"@ && env_params_ok(es[0].spec, 1, 100, 0, 1, 1, 100)
    &&& es[1].name@ == "Piano"@ && env_params_ok(es[1].spec, 1, 100, 1, 1, 1, 4)
    &&& es[2].name@ == "Pad"@ && env_params_ok(es[2].spec, 1, 10, 0, 1, 2, 1)
    &&& es[3].name@ == "Bell"@ && env_params_ok(es[3].spec, 1, 1000, 3, 10, 10, 1)
}

/// The shape of the built-in waveform table: its two reference entries in
/// full (the single-oscillator `Sine` and the four sine partials of `Rock
/// Organ 1`).
pub open spec fn builtin_waveforms_ok(ws: Seq<WaveformSpec>) -> bool {
    &&& ws.len() == 38
    &&& ws[0].name@ == "Sine"@ && ws[0].envelope@ == "Organ"@ && ws[0].stages@.len() == 1
    &&& sin_partial_ok(ws[0].stages@[0], 1, 1, 1, 1)
    &&& ws[15].name@ == "Rock Organ 1"@ && ws[15].envelope@ == "Organ"@ && ws[15].stages@.len()
        == 4
    &&& sin_partial_ok(ws[15].stages@[0], 1, 1, 8, 15)
    &&& sin_partial_ok(ws[15].stages@[1], 2, 1, -4, 15)
    &&& sin_partial_ok(ws[15].stages@[2], 4, 1, 2, 15)
    &&& sin_partial_ok(ws[15].stages@[3], 8, 1, -1, 15)
}

/// The built-in waveform collection.
pub fn get_builtin_waveforms() -> (r: MicrowaveConfig)
    ensures
        r.waveform_templates@.len() == 6,
        r.waveform_envelopes@.len() == 4,
        builtin_templates_ok(r.waveform_templates@),
        builtin_envelopes_ok(r.waveform_envelopes@),
        builtin_waveforms_ok(r.waveforms@),
        r.effect_templates@.len() == 0,
        r.effects@.len() == 0,
        r.waveforms@.len() == 38,
{
    let waveform_templates = template_specs();
    let waveform_envelopes = envelope_specs();
    let waveforms = waveform_specs();
    MicrowaveConfig {
        waveform_templates,
        waveform_envelopes,
        waveforms,
        effect_templates: Vec::new(),
        effects: Vec::new(),
    }
}

/// The six built-in templates.
fn template_specs() -> (r: Vec<TemplateSpec>)
    ensures
        r@.len() == 6,
        builtin_templates_ok(r@),
{
    let mut ts: Vec<TemplateSpec> = Vec::new();
    ts.push(TemplateSpec { name: "WaveformPitch".to_owned(), value: prop(WaveformProperty::WaveformPitch) });
    ts.push(TemplateSpec { name: "WaveformPeriod".to_owned(), value: prop(WaveformProperty::WaveformPeriod) });
    ts.push(TemplateSpec { name: "Velocity".to_owned(), value: prop(WaveformProperty::Velocity) });
    ts.push(TemplateSpec { name: "KeyPressure".to_owned(), value: prop(WaveformProperty::KeyPressure) });
    ts.push(TemplateSpec { name: "OffVelocity".to_owned(), value: prop(WaveformProperty::OffVelocity) });
    ts.push(TemplateSpec { name: "Fadeout".to_owned(), value: ctrl(SynthControl::Damper, prop(WaveformProperty::OffVelocitySet), val(fr(0, 1))) });
    ts
}

/// The four built-in envelopes.
fn envelope_specs() -> (r: Vec<NamedEnvelopeSpec>)
    ensures
        r@.len() == 4,
        builtin_envelopes_ok(r@),
{
    let mut es: Vec<NamedEnvelopeSpec> = Vec::new();
    es.push(NamedEnvelopeSpec { name: "Organ".to_owned(), spec: EnvelopeSpec { amplitude: tmpl("Velocity"), fadeout: tmpl("Fadeout"), attack_time: val(fr(1, 100)), decay_rate: val(fr(0, 1)), release_time: val(fr(1, 100)) } });
    es.push(NamedEnvelopeSpec { name: "Piano".to_owned(), spec: EnvelopeSpec { amplitude: tmpl("Velocity"), fadeout: tmpl("Fadeout"), attack_time: val(fr(1, 100)), decay_rate: val(fr(1, 1)), release_time: val(fr(1, 4)) } });
    es.push(NamedEnvelopeSpec { name: "Pad".to_owned(), spec: EnvelopeSpec { amplitude: tmpl("Velocity"), fadeout: tmpl("Fadeout"), attack_time: val(fr(1, 10)), decay_rate: val(fr(0, 1)), release_time: val(fr(2, 1)) } });
    es.push(NamedEnvelopeSpec { name: "Bell".to_owned(), spec: EnvelopeSpec { amplitude: tmpl("Velocity"), fadeout: tmpl("Fadeout"), attack_time: val(fr(1, 1000)), decay_rate: val(fr(3, 10)), release_time: val(fr(10, 1)) } });
    es
}

/// The 38 built-in waveforms.
#[verifier::rlimit(100)]
fn waveform_specs() -> (r: Vec<WaveformSpec>)
    ensures
        r@.len() == 38,
        builtin_waveforms_ok(r@),
{
    let mut ws: Vec<WaveformSpec> = Vec::new();
    ws.push(waveform("Sine", "Organ", vec![osc(OscillatorKind::Sin, tmpl("WaveformPitch"), Modulation::Plain, out(OutBufferSpec::AudioOut, val(fr(1, 1))))]));
    ws.push(waveform("Sine³", "Organ", vec![osc(OscillatorKind::Sin3, tmpl("WaveformPitch"), Modulation::Plain, out(OutBufferSpec::AudioOut, val(fr(1, 1))))]));
    ws.push(waveform("Clipped Sine", "Organ", vec![osc(OscillatorKind::Sin, tmpl("WaveformPitch"), Modulation::Plain, out(OutBufferSpec::Buffer(0), val(fr(1, 1)))), filt(FilterKind::Clip { limit: val(fr(1, 2)) }, InBufferSpec::Buffer(0), out(OutBufferSpec::AudioOut, val(fr(1, 1))))]));
    ws.push(waveform("Triangle", "Organ", vec![osc(OscillatorKind::Triangle, tmpl("WaveformPitch"), Modulation::Plain, out(OutBufferSpec::AudioOut, val(fr(1, 1))))]));
    ws.push(waveform("Triangle³", "Organ", vec![osc(OscillatorKind::Triangle, tmpl("WaveformPitch"), Modulation::Plain, out(OutBufferSpec::Buffer(0), val(fr(1, 1)))), filt(FilterKind::Pow3, InBufferSpec::Buffer(0), out(OutBufferSpec::AudioOut, val(fr(1, 1))))]));
    ws.push(waveform("Square", "Organ", vec![osc(OscillatorKind::Square, tmpl("WaveformPitch"), Modulation::Plain, out(OutBufferSpec::AudioOut, val(fr(1, 4))))]));
    ws.push(waveform("Sawtooth", "Organ", vec![osc(OscillatorKind::Sawtooth, tmpl("WaveformPitch"), Modulation::Plain, out(OutBufferSpec::AudioOut, val(fr(1, 2))))]));
    ws.push(waveform("Fat Sawtooth 1", "Organ", vec![osc(OscillatorKind::Sawtooth, val(fr(199, 200)).times(tmpl("WaveformPitch")), Modulation::Plain, out(OutBufferSpec::AudioOut, val(fr(1, 4)))), osc(OscillatorKind::Sawtooth, val(fr(201, 200)).times(tmpl("WaveformPitch")), Modulation::Plain, out(OutBufferSpec::AudioOut, val(fr(1, 4))))]));
    ws.push(waveform("Fat Sawtooth 2", "Organ", vec![osc(OscillatorKind::Sawtooth, val(fr(199, 200)).times(tmpl("WaveformPitch")), Modulation::Plain, out(OutBufferSpec::AudioOut, val(fr(1, 4)))), osc(OscillatorKind::Sawtooth, val(fr(201, 100)).times(tmpl("WaveformPitch")), Modulation::Plain, out(OutBufferSpec::AudioOut, val(fr(1, 4))))]));
    ws.push(waveform("Expressive Sawtooth (KeyPressure vor color)", "Organ", vec![osc(OscillatorKind::Sawtooth, tmpl("WaveformPitch"), Modulation::Plain, out(OutBufferSpec::Buffer(0), val(fr(1, 2)))), filt(FilterKind::LowPass2 { resonance: linear(tmpl("KeyPressure"), val(fr(500, 1)), val(fr(10000, 1))), quality: val(fr(3, 1)) }, InBufferSpec::Buffer(0), out(OutBufferSpec::AudioOut, val(fr(1, 1))))]));
    ws.push(waveform("Chiptune", "Organ", vec![osc(OscillatorKind::Sin3, val(fr(2, 1)).times(tmpl("WaveformPitch")), Modulation::Plain, out(OutBufferSpec::Buffer(0), val(fr(440, 1)))), osc(OscillatorKind::Sin3, tmpl("WaveformPitch"), Modulation::ByFrequency { mod_buffer: InBufferSpec::Buffer(0) }, out(OutBufferSpec::AudioOut, val(fr(1, 1))))]));
    ws.push(waveform("Electric Piano 1", "Piano", vec![osc(OscillatorKind::Sin, tmpl("WaveformPitch"), Modulation::Plain, out(OutBufferSpec::Buffer(0), val(fr(440, 1)))), osc(OscillatorKind::Sin, tmpl("WaveformPitch"), Modulation::ByFrequency { mod_buffer: InBufferSpec::Buffer(0) }, out(OutBufferSpec::AudioOut, val(fr(1, 1))))]));
    ws.push(waveform("Electric Piano 2", "Piano", vec![osc(OscillatorKind::Sin3, tmpl("WaveformPitch"), Modulation::Plain, out(OutBufferSpec::Buffer(0), val(fr(880, 1)))), osc(OscillatorKind::Sin, tmpl("WaveformPitch"), Modulation::ByFrequency { mod_buffer: InBufferSpec::Buffer(0) }, out(OutBufferSpec::AudioOut, val(fr(1, 1))))]));
    ws.push(waveform("Clavinet", "Piano", vec![osc(OscillatorKind::Sin, tmpl("WaveformPitch"), Modulation::Plain, out(OutBufferSpec::Buffer(0), val(fr(440, 1)))), osc(OscillatorKind::Triangle, tmpl("WaveformPitch"), Modulation::ByFrequency { mod_buffer: InBufferSpec::Buffer(0) }, out(OutBufferSpec::AudioOut, val(fr(1, 1))))]));
    ws.push(waveform("Funky Clavinet", "Piano", vec![osc(OscillatorKind::Sin, tmpl("WaveformPitch"), Modulation::Plain, out(OutBufferSpec::Buffer(0), val(fr(440, 1)))), osc(OscillatorKind::Triangle, tmpl("WaveformPitch"), Modulation::ByFrequency { mod_buffer: InBufferSpec::Buffer(0) }, out(OutBufferSpec::Buffer(1), val(fr(1, 1)))), filt(FilterKind::HighPass2 { resonance: tmpl("WaveformPitch").times(time(val(fr(0, 1)), val(fr(1, 10)), val(fr(2, 1)), val(fr(4, 1)))), quality: val(fr(5, 1)) }, InBufferSpec::Buffer(1), out(OutBufferSpec::AudioOut, val(fr(1, 1))))]));
    ws.push(waveform("Rock Organ 1", "Organ", vec![osc(OscillatorKind::Sin, tmpl("WaveformPitch"), Modulation::Plain, out(OutBufferSpec::AudioOut, val(fr(8, 15)))), osc(OscillatorKind::Sin, val(fr(2, 1)).times(tmpl("WaveformPitch")), Modulation::Plain, out(OutBufferSpec::AudioOut, val(fr(-4, 15)))), osc(OscillatorKind::Sin, val(fr(4, 1)).times(tmpl("WaveformPitch")), Modulation::Plain, out(OutBufferSpec::AudioOut, val(fr(2, 15)))), osc(OscillatorKind::Sin, val(fr(8, 1)).times(tmpl("WaveformPitch")), Modulation::Plain, out(OutBufferSpec::AudioOut, val(fr(-1, 15))))]));
    ws.push(waveform("Rock Organ 2", "Organ", vec![osc(OscillatorKind::Sin, tmpl("WaveformPitch"), Modulation::Plain, out(OutBufferSpec::AudioOut, val(fr(8, 15)))), osc(OscillatorKind::Sin, val(fr(2, 1)).times(tmpl("WaveformPitch")), Modulation::Plain, out(OutBufferSpec::AudioOut, val(fr(-4, 15)))), osc(OscillatorKind::Sin, val(fr(4, 1)).times(tmpl("WaveformPitch")), Modulation::Plain, out(OutBufferSpec::AudioOut, val(fr(2, 15)))), osc(OscillatorKind::Sin, val(fr(6, 1)).times(tmpl("WaveformPitch")), Modulation::Plain, out(OutBufferSpec::AudioOut, val(fr(-1, 15))))]));
    ws.push(waveform("Pipe Organ", "Organ", vec![osc(OscillatorKind::Sin3, tmpl("WaveformPitch"), Modulation::Plain, out(OutBufferSpec::AudioOut, val(fr(8, 15)))), osc(OscillatorKind::Sin3, val(fr(2, 1)).times(tmpl("WaveformPitch")), Modulation::Plain, out(OutBufferSpec::AudioOut, val(fr(-4, 15)))), osc(OscillatorKind::Sin3, val(fr(4, 1)).times(tmpl("WaveformPitch")), Modulation::Plain, out(OutBufferSpec::AudioOut, val(fr(2, 15)))), osc(OscillatorKind::Sin3, val(fr(8, 1)).times(tmpl("WaveformPitch")), Modulation::Plain, out(OutBufferSpec::AudioOut, val(fr(-1, 15))))]));
    ws.push(waveform("Brass", "Organ", vec![osc(OscillatorKind::Sin3, tmpl("WaveformPitch"), Modulation::Plain, out(OutBufferSpec::Buffer(0), val(fr(440, 1)))), osc(OscillatorKind::Sin3, tmpl("WaveformPitch"), Modulation::ByFrequency { mod_buffer: InBufferSpec::Buffer(0) }, out(OutBufferSpec::AudioOut, val(fr(1, 1))))]));
    ws.push(waveform("Oboe", "Organ", vec![osc(OscillatorKind::Sin, tmpl("WaveformPitch"), Modulation::Plain, out(OutBufferSpec::Buffer(0), val(fr(440, 1)))), osc(OscillatorKind::Sin3, tmpl("WaveformPitch").times(lfo(OscillatorKind::Sin, val(fr(5, 1)), val(fr(1, 1)), time(val(fr(0, 1)), val(fr(2, 1)), val(fr(0, 1)), val(fr(1, 100))))), Modulation::ByFrequency { mod_buffer: InBufferSpec::Buffer(0) }, out(OutBufferSpec::AudioOut, val(fr(1, 1))))]));
    ws.push(waveform("Sax", "Organ", vec![osc(OscillatorKind::Sin3, tmpl("WaveformPitch"), Modulation::Plain, out(OutBufferSpec::Buffer(0), linear(tmpl("Velocity"), val(fr(220, 1)), val(fr(880, 1))))), osc(OscillatorKind::Sin3, tmpl("WaveformPitch"), Modulation::ByFrequency { mod_buffer: InBufferSpec::Buffer(0) }, out(OutBufferSpec::AudioOut, val(fr(1, 1))))]));
    ws.push(waveform("Bagpipes", "Organ", vec![osc(OscillatorKind::Sin, tmpl("WaveformPitch"), Modulation::Plain, out(OutBufferSpec::Buffer(0), val(fr(880, 1)))), osc(OscillatorKind::Sin3, tmpl("WaveformPitch"), Modulation::ByFrequency { mod_buffer: InBufferSpec::Buffer(0) }, out(OutBufferSpec::AudioOut, val(fr(1, 1))))]));
    ws.push(waveform("Distortion", "Organ", vec![osc(OscillatorKind::Sin3, tmpl("WaveformPitch"), Modulation::Plain, out(OutBufferSpec::Buffer(0), val(fr(4400, 1)))), osc(OscillatorKind::Sin, tmpl("WaveformPitch"), Modulation::ByFrequency { mod_buffer: InBufferSpec::Buffer(0) }, out(OutBufferSpec::AudioOut, val(fr(1, 2))))]));
    ws.push(waveform("Bell 1", "Bell", vec![osc(OscillatorKind::Sin3, tmpl("WaveformPitch"), Modulation::Plain, out(OutBufferSpec::AudioOut, val(fr(16, 31)))), osc(OscillatorKind::Sin3, val(fr(3, 1)).times(tmpl("WaveformPitch")), Modulation::Plain, out(OutBufferSpec::AudioOut, val(fr(-8, 31)))), osc(OscillatorKind::Sin3, val(fr(5, 1)).times(tmpl("WaveformPitch")), Modulation::Plain, out(OutBufferSpec::AudioOut, val(fr(4, 31)))), osc(OscillatorKind::Sin3, val(fr(7, 1)).times(tmpl("WaveformPitch")), Modulation::Plain, out(OutBufferSpec::AudioOut, val(fr(-2, 31)))), osc(OscillatorKind::Sin3, val(fr(9, 1)).times(tmpl("WaveformPitch")), Modulation::Plain, out(OutBufferSpec::AudioOut, val(fr(1, 31))))]));
    ws.push(waveform("Bell 2 (12-EDO)", "Bell", vec![osc(OscillatorKind::Sin3, tmpl("WaveformPitch"), Modulation::Plain, out(OutBufferSpec::AudioOut, val(fr(16, 31)))), osc(OscillatorKind::Sin3, val(fr(14983, 5000)).times(tmpl("WaveformPitch")), Modulation::Plain, out(OutBufferSpec::AudioOut, val(fr(-8, 31)))), osc(OscillatorKind::Sin3, val(fr(25197, 5000)).times(tmpl("WaveformPitch")), Modulation::Plain, out(OutBufferSpec::AudioOut, val(fr(4, 31)))), osc(OscillatorKind::Sin3, val(fr(8909, 1250)).times(tmpl("WaveformPitch")), Modulation::Plain, out(OutBufferSpec::AudioOut, val(fr(-2, 31)))), osc(OscillatorKind::Sin3, val(fr(89797, 10000)).times(tmpl("WaveformPitch")), Modulation::Plain, out(OutBufferSpec::AudioOut, val(fr(1, 31))))]));
    ws.push(waveform("Soft Plucked String (Breath for color)", "Organ", vec![osc(OscillatorKind::Triangle, tmpl("WaveformPitch"), Modulation::Plain, out(OutBufferSpec::Buffer(0), time(tmpl("WaveformPeriod"), tmpl("WaveformPeriod"), val(fr(1, 1)), val(fr(0, 1))))), waveguide(4096, tmpl("WaveformPitch"), ctrl(SynthControl::Breath, val(fr(2000, 1)), val(fr(5000, 1))), Reflectance::Negative, val(fr(1, 1)), InBufferSpec::Buffer(0), out(OutBufferSpec::AudioOut, val(fr(1, 1))))]));
    ws.push(waveform("Hard Plucked String (Breath for color)", "Organ", vec![signal(out(OutBufferSpec::Buffer(0), time(tmpl("WaveformPeriod"), tmpl("WaveformPeriod"), val(fr(1, 1)), val(fr(0, 1))))), waveguide(4096, tmpl("WaveformPitch"), ctrl(SynthControl::Breath, val(fr(2000, 1)), val(fr(5000, 1))), Reflectance::Negative, val(fr(1, 1)), InBufferSpec::Buffer(0), out(OutBufferSpec::AudioOut, val(fr(1, 1))))]));
    ws.push(waveform("Blown Bottle (Breath for color)", "Organ", vec![signal(out(OutBufferSpec::Buffer(0), val(fr(3, 10)))), waveguide(4096, tmpl("WaveformPitch"), ctrl(SynthControl::Breath, val(fr(2000, 1)), val(fr(5000, 1))), Reflectance::Negative, val(fr(1, 1)), InBufferSpec::Buffer(0), out(OutBufferSpec::AudioOut, val(fr(1, 1))))]));
    ws.push(waveform("Fretless Bass (Breath for color)", "Organ", vec![osc(OscillatorKind::Triangle, tmpl("WaveformPitch"), Modulation::Plain, out(OutBufferSpec::Buffer(0), time(tmpl("WaveformPeriod"), tmpl("WaveformPeriod"), val(fr(1, 1)), val(fr(0, 1))))), waveguide(4096, tmpl("WaveformPitch"), ctrl(SynthControl::Breath, val(fr(2000, 1)), val(fr(5000, 1))), Reflectance::Positive, val(fr(1, 1)), InBufferSpec::Buffer(0), out(OutBufferSpec::AudioOut, val(fr(1, 1))))]));
    ws.push(waveform("Dulcimer", "Organ", vec![signal(out(OutBufferSpec::Buffer(0), time(tmpl("WaveformPeriod"), tmpl("WaveformPeriod"), val(fr(1, 1)), val(fr(0, 1))))), waveguide(4096, tmpl("WaveformPitch"), val(fr(2500, 1)).plus(val(fr(5, 1))).times(tmpl("WaveformPitch")), Reflectance::Positive, val(fr(1, 1)), InBufferSpec::Buffer(0), out(OutBufferSpec::AudioOut, val(fr(1, 1))))]));
    ws.push(waveform("Strings (Breath for color)", "Organ", vec![signal(out(OutBufferSpec::Buffer(0), val(fr(3, 10)))), waveguide(4096, tmpl("WaveformPitch"), ctrl(SynthControl::Breath, val(fr(2000, 1)), val(fr(6000, 1))), Reflectance::Positive, val(fr(1, 1)), InBufferSpec::Buffer(0), out(OutBufferSpec::Buffer(1), val(fr(1, 1)))), filt(FilterKind::LowPass2 { resonance: val(fr(4, 1)).times(tmpl("WaveformPitch")), quality: val(fr(1, 1)) }, InBufferSpec::Buffer(1), out(OutBufferSpec::AudioOut, val(fr(1, 1))))]));
    ws.push(waveform("Clarinet (Breath for color)", "Organ", vec![osc(OscillatorKind::Sin, tmpl("WaveformPitch"), Modulation::Plain, out(OutBufferSpec::Buffer(0), ctrl(SynthControl::Breath, val(fr(1, 5)), val(fr(1, 1))))), waveguide(4096, tmpl("WaveformPitch"), val(fr(5000, 1)), Reflectance::Negative, val(fr(1, 1)), InBufferSpec::Buffer(0), out(OutBufferSpec::AudioOut, val(fr(1, 2))))]));
    ws.push(waveform("Ring Modulation 1", "Organ", vec![osc(OscillatorKind::Sin3, tmpl("WaveformPitch"), Modulation::Plain, out(OutBufferSpec::Buffer(0), val(fr(1, 1)))), osc(OscillatorKind::Sin, val(fr(3, 2)).times(tmpl("WaveformPitch")), Modulation::Plain, out(OutBufferSpec::Buffer(1), val(fr(1, 1)))), ring(InBufferSpec::Buffer(0), InBufferSpec::Buffer(1), out(OutBufferSpec::AudioOut, val(fr(1, 1))))]));
    ws.push(waveform("Ring Modulation 2", "Organ", vec![osc(OscillatorKind::Sin3, tmpl("WaveformPitch"), Modulation::Plain, out(OutBufferSpec::Buffer(0), val(fr(1, 1)))), osc(OscillatorKind::Sin, val(fr(5, 2)).times(tmpl("WaveformPitch")), Modulation::Plain, out(OutBufferSpec::Buffer(1), val(fr(1, 1)))), ring(InBufferSpec::Buffer(0), InBufferSpec::Buffer(1), out(OutBufferSpec::AudioOut, val(fr(1, 1))))]));
    ws.push(waveform("Bright Pad", "Pad", vec![osc(OscillatorKind::Sawtooth, tmpl("WaveformPitch"), Modulation::Plain, out(OutBufferSpec::Buffer(0), val(fr(1, 2)))), filt(FilterKind::LowPass { cutoff: tmpl("WaveformPitch").times(time(val(fr(0, 1)), val(fr(2, 1)), val(fr(0, 1)), val(fr(10, 1)))) }, InBufferSpec::Buffer(0), out(OutBufferSpec::AudioOut, val(fr(1, 1))))]));
    ws.push(waveform("Resonance Pad", "Pad", vec![osc(OscillatorKind::Sawtooth, tmpl("WaveformPitch"), Modulation::Plain, out(OutBufferSpec::Buffer(0), val(fr(1, 2)))), filt(FilterKind::LowPass2 { resonance: tmpl("WaveformPitch").times(time(val(fr(0, 1)), val(fr(2, 1)), val(fr(1, 1)), val(fr(32, 1)))), quality: val(fr(5, 1)) }, InBufferSpec::Buffer(0), out(OutBufferSpec::AudioOut, val(fr(1, 1))))]));
    ws.push(waveform("Triangle Harp", "Bell", vec![osc(OscillatorKind::Triangle, tmpl("WaveformPitch"), Modulation::Plain, out(OutBufferSpec::Buffer(0), val(fr(1, 1)))), filt(FilterKind::HighPass { cutoff: tmpl("WaveformPitch").times(time(val(fr(0, 1)), val(fr(200, 1)), val(fr(1, 1)), val(fr(1000, 1)))) }, InBufferSpec::Buffer(0), out(OutBufferSpec::AudioOut, val(fr(1, 1))))]));
    ws.push(waveform("Audio-in", "Organ", vec![waveguide(4096, tmpl("WaveformPitch"), ctrl(SynthControl::Breath, val(fr(2000, 1)), val(fr(5000, 1))), Reflectance::Negative, val(fr(1, 1)), InBufferSpec::AudioIn, out(OutBufferSpec::AudioOut, val(fr(1, 1))))]));
    ws
}

/// An exact fraction as a fixed-point value.
fn fr(numer: i64, denom: i64) -> (r: Fx)
    requires
        denom > 0,
    ensures
        r.raw == crate::fx::clip_i64(crate::fx::div_trunc(numer * crate::fx::FX_ONE_RAW, denom as int)),
{
    Fx::from_frac(numer, denom)
}

/// A constant source.
fn val(v: Fx) -> (r: LfSource)
    ensures
        r == LfSource::Value(v),
{
    LfSource::Value(v)
}

/// A template reference.
fn tmpl(name: &str) -> (r: LfSource)
    ensures
        is_tmpl(r, name@),
{
    LfSource::template(name)
}

/// A property source.
fn prop(kind: WaveformProperty) -> (r: LfSource)
    ensures
        r == LfSource::Property(kind),
{
    LfSource::Property(kind)
}

/// A controller source mapped to `[map0, map1]`.
fn ctrl(kind: SynthControl, map0: LfSource, map1: LfSource) -> (r: LfSource)
    ensures
        r matches LfSource::Controller { kind: k, map0: a, map1: b } && k == kind && *a == map0
            && *b == map1,
{
    LfSource::Controller { kind, map0: Box::new(map0), map1: Box::new(map1) }
}

/// A low-frequency oscillator source.
fn lfo(kind: OscillatorKind, frequency: LfSource, baseline: LfSource, amplitude: LfSource)
    -> LfSource {
    LfSource::Oscillator {
        kind,
        frequency: Box::new(frequency),
        baseline: Box::new(baseline),
        amplitude: Box::new(amplitude),
    }
}

/// A time-ramp source.
fn time(start: LfSource, end: LfSource, from: LfSource, to: LfSource) -> LfSource {
    LfSource::Time {
        start: Box::new(start),
        end: Box::new(end),
        from: Box::new(from),
        to: Box::new(to),
    }
}

/// A clamped linear mapping source.
fn linear(input: LfSource, map0: LfSource, map1: LfSource) -> LfSource {
    LfSource::Linear { input: Box::new(input), map0: Box::new(map0), map1: Box::new(map1) }
}

impl LfSource {
    /// The pointwise product of two sources.
    pub fn times(self, other: LfSource) -> (r: LfSource)
        ensures
            r matches LfSource::Mul(a, b) && *a == self && *b == other,
    {
        LfSource::Mul(Box::new(self), Box::new(other))
    }

    /// The pointwise sum of two sources.
    pub fn plus(self, other: LfSource) -> LfSource {
        LfSource::Add(Box::new(self), Box::new(other))
    }
}

/// An output destination with its level.
fn out(out_buffer: OutBufferSpec, out_level: LfSource) -> (r: OutSpec)
    ensures
        r == (OutSpec { out_buffer, out_level }),
{
    OutSpec { out_buffer, out_level }
}

/// An oscillator stage.
fn osc(kind: OscillatorKind, frequency: LfSource, modulation: Modulation, out_spec: OutSpec) -> (r:
    StageSpec)
    ensures
        r == StageSpec::Oscillator(Oscillator { kind, frequency, modulation, out_spec }),
{
    StageSpec::Oscillator(Oscillator { kind, frequency, modulation, out_spec })
}

/// A filter stage.
fn filt(kind: FilterKind, in_buffer: InBufferSpec, out_spec: OutSpec) -> StageSpec {
    StageSpec::Filter(Filter { kind, in_buffer, out_spec })
}

/// A noise stage.
fn signal(out_spec: OutSpec) -> StageSpec {
    StageSpec::Signal(SignalSpec { kind: SignalKind::Noise, out_spec })
}

/// A waveguide stage.
fn waveguide(
    buffer_size: usize,
    frequency: LfSource,
    cutoff: LfSource,
    reflectance: Reflectance,
    feedback: LfSource,
    in_buffer: InBufferSpec,
    out_spec: OutSpec,
) -> StageSpec {
    StageSpec::Waveguide(
        WaveguideSpec { buffer_size, frequency, cutoff, reflectance, feedback, in_buffer, out_spec },
    )
}

/// A ring-modulator stage.
fn ring(in1: InBufferSpec, in2: InBufferSpec, out_spec: OutSpec) -> StageSpec {
    StageSpec::RingModulator(RingModulator { in_buffers: (in1, in2), out_spec })
}

/// A waveform from its parts.
fn waveform(name: &str, envelope: &str, stages: Vec<StageSpec>) -> (r: WaveformSpec)
    ensures
        r.name@ == name@,
        r.envelope@ == envelope@,
        r.stages == stages,
{
    WaveformSpec { name: name.to_owned(), envelope: envelope.to_owned(), stages }
}

} // verus!
