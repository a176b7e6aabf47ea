//! Instantiation of declarative specifications into live stages.
//!
//! The creator expands named templates and compiles every low-frequency
//! source into an [`AutomatedValue`] whose stateful leaves own slots of the
//! stage's state vector.  Template chains longer than the number of
//! templates must repeat a name, so running out of expansion depth is
//! exactly a template cycle; the spec function [`compile_ok`] pins down
//! which sources compile.

use vstd::prelude::*;

use crate::buffer::{InBufferSpec, OutBufferSpec};
use crate::envelope::{Envelope, EnvelopeSpec, NamedEnvelopeSpec};
use crate::filter::{FilterKind, FilterKindStage, FilterMemory, FilterStage, RingModStage};
use crate::fx::Fx;
use crate::oscillator::OscillatorStage;
use crate::signal::SignalStage;
use crate::source::{av_wf, AutomatedValue, LfSource};
use crate::waveform::{
    stage_wf, Stage, StageSpec, TemplateSpec, Waveform, WaveformProperties, WaveformSpec,
};
use crate::waveguide::WaveguideStage;

verus! {

/// A fatal configuration error.
#[derive(Debug)]
pub struct ConfigError {
    pub message: String,
}

/// Looks a template up by name.
pub open spec fn find_template(ts: Seq<TemplateSpec>, name: Seq<char>) -> Option<int>
    decreases ts.len(),
{
    if ts.len() == 0 {
        Option::None
    } else if ts[0].name@ == name {
        Option::Some(0int)
    } else {
        match find_template(ts.skip(1), name) {
            Option::Some(i) => Option::Some(i + 1),
            Option::None => Option::None,
        }
    }
}

/// Whether a source compiles within the given template-expansion depth:
/// every referenced template exists and no chain exhausts the depth.
pub open spec fn compile_ok(s: LfSource, ts: Seq<TemplateSpec>, depth: nat) -> bool
    decreases depth, s,
{
    match s {
        LfSource::Value(_) => true,
        LfSource::Property(_) => true,
        LfSource::Template(name) => match find_template(ts, name@) {
            Option::Some(i) => depth > 0 && compile_ok(ts[i].value, ts, (depth - 1) as nat),
            Option::None => false,
        },
        LfSource::Controller { map0, map1, .. } => compile_ok(*map0, ts, depth) && compile_ok(
            *map1,
            ts,
            depth,
        ),
        LfSource::Oscillator { frequency, baseline, amplitude, .. } => compile_ok(
            *frequency,
            ts,
            depth,
        ) && compile_ok(*baseline, ts, depth) && compile_ok(*amplitude, ts, depth),
        LfSource::Time { start, end, from, to } => compile_ok(*start, ts, depth) && compile_ok(
            *end,
            ts,
            depth,
        ) && compile_ok(*from, ts, depth) && compile_ok(*to, ts, depth),
        LfSource::Linear { input, map0, map1 } => compile_ok(*input, ts, depth) && compile_ok(
            *map0,
            ts,
            depth,
        ) && compile_ok(*map1, ts, depth),
        LfSource::Semitones(x) => compile_ok(*x, ts, depth),
        LfSource::Add(a, b) => compile_ok(*a, ts, depth) && compile_ok(*b, ts, depth),
        LfSource::Mul(a, b) => compile_ok(*a, ts, depth) && compile_ok(*b, ts, depth),
    }
}

/// Whether a compiled value is the given source with its templates
/// expanded: structure, constants, properties and selectors carry over
/// leaf by leaf.
pub open spec fn compiled_matches(
    s: LfSource,
    av: AutomatedValue,
    ts: Seq<TemplateSpec>,
    depth: nat,
) -> bool
    decreases depth, s,
{
    match s {
        LfSource::Value(v) => av == AutomatedValue::Value(v),
        LfSource::Property(k) => av == AutomatedValue::Property(k),
        LfSource::Template(name) => match find_template(ts, name@) {
            Option::Some(i) => depth > 0 && compiled_matches(
                ts[i].value,
                av,
                ts,
                (depth - 1) as nat,
            ),
            Option::None => false,
        },
        LfSource::Controller { kind, map0, map1 } => (av matches AutomatedValue::Controller {
            kind: k2,
            map0: a,
            map1: b,
        } && k2 == kind && compiled_matches(*map0, *a, ts, depth) && compiled_matches(
            *map1,
            *b,
            ts,
            depth,
        )),
        LfSource::Oscillator { kind, frequency, baseline, amplitude } => (av matches
        AutomatedValue::Oscillator {
            kind: k2,
            slot: _,
            frequency: f,
            baseline: b,
            amplitude: a,
        } && k2 == kind && compiled_matches(*frequency, *f, ts, depth) && compiled_matches(
            *baseline,
            *b,
            ts,
            depth,
        ) && compiled_matches(*amplitude, *a, ts, depth)),
        LfSource::Time { start, end, from, to } => (av matches AutomatedValue::Time {
            slot: _,
            start: a1,
            end: a2,
            from: a3,
            to: a4,
        } && compiled_matches(*start, *a1, ts, depth) && compiled_matches(*end, *a2, ts, depth)
            && compiled_matches(*from, *a3, ts, depth) && compiled_matches(*to, *a4, ts, depth)),
        LfSource::Linear { input, map0, map1 } => (av matches AutomatedValue::Linear {
            input: a1,
            map0: a2,
            map1: a3,
        } && compiled_matches(*input, *a1, ts, depth) && compiled_matches(*map0, *a2, ts, depth)
            && compiled_matches(*map1, *a3, ts, depth)),
        LfSource::Semitones(x) => (av matches AutomatedValue::Semitones(a) && compiled_matches(
            *x,
            *a,
            ts,
            depth,
        )),
        LfSource::Add(x, y) => (av matches AutomatedValue::Add(a, b) && compiled_matches(
            *x,
            *a,
            ts,
            depth,
        ) && compiled_matches(*y, *b, ts, depth)),
        LfSource::Mul(x, y) => (av matches AutomatedValue::Mul(a, b) && compiled_matches(
            *x,
            *a,
            ts,
            depth,
        ) && compiled_matches(*y, *b, ts, depth)),
    }
}

/// Whether a compiled filter selector matches its specification.
pub open spec fn filter_kind_matches(
    k: FilterKind,
    ks: FilterKindStage,
    ts: Seq<TemplateSpec>,
    depth: nat,
) -> bool {
    match k {
        FilterKind::Clip { limit } => (ks matches FilterKindStage::Clip { limit: l }
            && compiled_matches(limit, l, ts, depth)),
        FilterKind::Pow3 => ks is Pow3,
        FilterKind::LowPass { cutoff } => (ks matches FilterKindStage::LowPass { cutoff: c }
            && compiled_matches(cutoff, c, ts, depth)),
        FilterKind::HighPass { cutoff } => (ks matches FilterKindStage::HighPass { cutoff: c }
            && compiled_matches(cutoff, c, ts, depth)),
        FilterKind::LowPass2 { resonance, quality } => (ks matches FilterKindStage::LowPass2 {
            resonance: rr,
            quality: q,
        } && compiled_matches(resonance, rr, ts, depth) && compiled_matches(quality, q, ts, depth)),
        FilterKind::HighPass2 { resonance, quality } => (ks matches FilterKindStage::HighPass2 {
            resonance: rr,
            quality: q,
        } && compiled_matches(resonance, rr, ts, depth) && compiled_matches(quality, q, ts, depth)),
    }
}

/// Whether an instantiated stage matches its specification: the kinds and
/// buffer selectors carry over and every low-frequency source compiles to
/// a matching automated value.
pub open spec fn stage_matches(spec: StageSpec, st: Stage, ts: Seq<TemplateSpec>, depth: nat) -> bool {
    match spec {
        StageSpec::Oscillator(o) => (st matches Stage::Oscillator(os) && os.kind == o.kind
            && os.modulation == o.modulation && os.out_buffer == o.out_spec.out_buffer
            && compiled_matches(o.frequency, os.frequency, ts, depth) && compiled_matches(
            o.out_spec.out_level,
            os.out_level,
            ts,
            depth,
        )),
        StageSpec::Filter(f) => (st matches Stage::Filter(fs) && fs.in_buffer == f.in_buffer
            && fs.out_buffer == f.out_spec.out_buffer && filter_kind_matches(
            f.kind,
            fs.kind,
            ts,
            depth,
        ) && compiled_matches(f.out_spec.out_level, fs.out_level, ts, depth)),
        StageSpec::Signal(g) => (st matches Stage::Signal(gs) && gs.kind == g.kind
            && gs.out_buffer == g.out_spec.out_buffer && compiled_matches(
            g.out_spec.out_level,
            gs.out_level,
            ts,
            depth,
        )),
        StageSpec::Waveguide(w) => (st matches Stage::Waveguide(ws) && ws.reflectance
            == w.reflectance && ws.in_buffer == w.in_buffer && ws.out_buffer
            == w.out_spec.out_buffer && compiled_matches(w.frequency, ws.frequency, ts, depth)
            && compiled_matches(w.cutoff, ws.cutoff, ts, depth) && compiled_matches(
            w.feedback,
            ws.feedback,
            ts,
            depth,
        ) && compiled_matches(w.out_spec.out_level, ws.out_level, ts, depth)),
        StageSpec::RingModulator(rm) => (st matches Stage::RingModulator(rs) && rs.in_buffers
            == rm.in_buffers && rs.out_buffer == rm.out_spec.out_buffer && compiled_matches(
            rm.out_spec.out_level,
            rs.out_level,
            ts,
            depth,
        )),
    }
}

/// Slot validity is monotone in the state-vector length.
pub proof fn lemma_av_wf_mono(s: AutomatedValue, n: nat, m: nat)
    requires
        av_wf(s, n),
        n <= m,
    ensures
        av_wf(s, m),
    decreases s,
{
    match s {
        AutomatedValue::Value(_) => {},
        AutomatedValue::Property(_) => {},
        AutomatedValue::Controller { map0, map1, .. } => {
            lemma_av_wf_mono(*map0, n, m);
            lemma_av_wf_mono(*map1, n, m);
        },
        AutomatedValue::Oscillator { frequency, baseline, amplitude, .. } => {
            lemma_av_wf_mono(*frequency, n, m);
            lemma_av_wf_mono(*baseline, n, m);
            lemma_av_wf_mono(*amplitude, n, m);
        },
        AutomatedValue::Time { start, end, from, to, .. } => {
            lemma_av_wf_mono(*start, n, m);
            lemma_av_wf_mono(*end, n, m);
            lemma_av_wf_mono(*from, n, m);
            lemma_av_wf_mono(*to, n, m);
        },
        AutomatedValue::Linear { input, map0, map1 } => {
            lemma_av_wf_mono(*input, n, m);
            lemma_av_wf_mono(*map0, n, m);
            lemma_av_wf_mono(*map1, n, m);
        },
        AutomatedValue::Semitones(x) => {
            lemma_av_wf_mono(*x, n, m);
        },
        AutomatedValue::Add(a, b) => {
            lemma_av_wf_mono(*a, n, m);
            lemma_av_wf_mono(*b, n, m);
        },
        AutomatedValue::Mul(a, b) => {
            lemma_av_wf_mono(*a, n, m);
            lemma_av_wf_mono(*b, n, m);
        },
    }
}

/// Builds configuration-error messages.
fn config_error(prefix: &str, name: &str) -> (r: ConfigError) {
    let mut message = prefix.to_owned();
    message.append(name);
    ConfigError { message }
}

/// The creator: the template environment and the engine's sample rate.
pub struct Creator {
    pub templates: Vec<TemplateSpec>,
    pub sample_rate: u32,
}

impl Creator {
    /// A creator over the given templates.
    pub fn new(templates: Vec<TemplateSpec>, sample_rate: u32) -> (r: Creator)
        ensures
            r.templates == templates,
            r.sample_rate == sample_rate,
    {
        Creator { templates, sample_rate }
    }

    /// Compiles a source, pushing state slots for its stateful leaves onto
    /// `slots`.  Succeeds exactly when the source compiles within `depth`
    /// template expansions.
    pub fn compile(&self, s: &LfSource, depth: usize, slots: &mut Vec<u64>) -> (r: Result<
        AutomatedValue,
        ConfigError,
    >)
        ensures
            final(slots)@.len() >= old(slots)@.len(),
            r is Ok <==> compile_ok(*s, self.templates@, depth as nat),
            r matches Ok(av) ==> av_wf(av, final(slots)@.len()),
            r matches Ok(av) ==> compiled_matches(*s, av, self.templates@, depth as nat),
        decreases depth, *s,
    {
        match s {
            LfSource::Value(v) => Ok(AutomatedValue::Value(*v)),
            LfSource::Property(k) => Ok(AutomatedValue::Property(*k)),
            LfSource::Template(name) => {
                let mut i: usize = 0;
                let n = self.templates.len();
                let mut found: Option<usize> = Option::None;
                proof {
                    assert(self.templates@.skip(0) =~= self.templates@);
                }
                while i < n
                    invariant
                        i <= n,
                        n == self.templates@.len(),
                        found matches Option::Some(j) ==> {
                            &&& find_template(self.templates@, name@) == Option::Some(j as int)
                            &&& j < n
                        },
                        found is None ==> (match find_template(
                            self.templates@.skip(i as int),
                            name@,
                        ) {
                            Option::Some(j) => find_template(self.templates@, name@)
                                == Option::Some(j + i),
                            Option::None => find_template(self.templates@, name@) is None,
                        }),
                        found is None ==> i < n || find_template(self.templates@, name@) is None,
                    decreases n - i + (if found is None { 1int } else { 0int }),
                {
                    if found.is_none() {
                        let t = &self.templates[i];
                        if t.name == *name {
                            found = Option::Some(i);
                            proof {
                                lemma_find_template_skip(self.templates@, name@, i as int);
                            }
                        } else {
                            proof {
                                lemma_find_template_skip_step(self.templates@, name@, i as int);
                            }
                            i = i + 1;
                        }
                    } else {
                        i = n;
                    }
                }
                match found {
                    Option::Some(j) => {
                        if depth == 0 {
                            Err(config_error("template cycle at ", name.as_str()))
                        } else {
                            let t = &self.templates[j];
                            self.compile(&t.value, depth - 1, slots)
                        }
                    },
                    Option::None => Err(config_error("unknown template ", name.as_str())),
                }
            },
            LfSource::Controller { kind, map0, map1 } => {
                let m0 = self.compile(map0, depth, slots);
                match m0 {
                    Err(e) => Err(e),
                    Ok(a0) => {
                        let m1 = self.compile(map1, depth, slots);
                        match m1 {
                            Err(e) => Err(e),
                            Ok(a1) => {
                                proof {
                                    lemma_av_wf_mono_auto(a0, slots@.len());
                                }
                                Ok(
                                    AutomatedValue::Controller {
                                        kind: *kind,
                                        map0: Box::new(a0),
                                        map1: Box::new(a1),
                                    },
                                )
                            },
                        }
                    },
                }
            },
            LfSource::Oscillator { kind, frequency, baseline, amplitude } => {
                let slot = slots.len();
                slots.push(0);
                let f = self.compile(frequency, depth, slots);
                let b = self.compile(baseline, depth, slots);
                let a = self.compile(amplitude, depth, slots);
                match (f, b, a) {
                    (Ok(f), Ok(b), Ok(a)) => {
                        proof {
                            lemma_av_wf_mono_auto(f, slots@.len());
                            lemma_av_wf_mono_auto(b, slots@.len());
                        }
                        Ok(
                            AutomatedValue::Oscillator {
                                kind: *kind,
                                slot,
                                frequency: Box::new(f),
                                baseline: Box::new(b),
                                amplitude: Box::new(a),
                            },
                        )
                    },
                    (Err(e), _, _) => Err(e),
                    (_, Err(e), _) => Err(e),
                    (_, _, Err(e)) => Err(e),
                }
            },
            LfSource::Time { start, end, from, to } => {
                let slot = slots.len();
                slots.push(0);
                let s1 = self.compile(start, depth, slots);
                let s2 = self.compile(end, depth, slots);
                let s3 = self.compile(from, depth, slots);
                let s4 = self.compile(to, depth, slots);
                match (s1, s2, s3, s4) {
                    (Ok(a1), Ok(a2), Ok(a3), Ok(a4)) => {
                        proof {
                            lemma_av_wf_mono_auto(a1, slots@.len());
                            lemma_av_wf_mono_auto(a2, slots@.len());
                            lemma_av_wf_mono_auto(a3, slots@.len());
                        }
                        Ok(
                            AutomatedValue::Time {
                                slot,
                                start: Box::new(a1),
                                end: Box::new(a2),
                                from: Box::new(a3),
                                to: Box::new(a4),
                            },
                        )
                    },
                    (Err(e), _, _, _) => Err(e),
                    (_, Err(e), _, _) => Err(e),
                    (_, _, Err(e), _) => Err(e),
                    (_, _, _, Err(e)) => Err(e),
                }
            },
            LfSource::Linear { input, map0, map1 } => {
                let s1 = self.compile(input, depth, slots);
                let s2 = self.compile(map0, depth, slots);
                let s3 = self.compile(map1, depth, slots);
                match (s1, s2, s3) {
                    (Ok(a1), Ok(a2), Ok(a3)) => {
                        proof {
                            lemma_av_wf_mono_auto(a1, slots@.len());
                            lemma_av_wf_mono_auto(a2, slots@.len());
                        }
                        Ok(
                            AutomatedValue::Linear {
                                input: Box::new(a1),
                                map0: Box::new(a2),
                                map1: Box::new(a3),
                            },
                        )
                    },
                    (Err(e), _, _) => Err(e),
                    (_, Err(e), _) => Err(e),
                    (_, _, Err(e)) => Err(e),
                }
            },
            LfSource::Semitones(x) => {
                match self.compile(x, depth, slots) {
                    Ok(a) => Ok(AutomatedValue::Semitones(Box::new(a))),
                    Err(e) => Err(e),
                }
            },
            LfSource::Add(a, b) => {
                let s1 = self.compile(a, depth, slots);
                let s2 = self.compile(b, depth, slots);
                match (s1, s2) {
                    (Ok(a1), Ok(a2)) => {
                        proof {
                            lemma_av_wf_mono_auto(a1, slots@.len());
                        }
                        Ok(AutomatedValue::Add(Box::new(a1), Box::new(a2)))
                    },
                    (Err(e), _) => Err(e),
                    (_, Err(e)) => Err(e),
                }
            },
            LfSource::Mul(a, b) => {
                let s1 = self.compile(a, depth, slots);
                let s2 = self.compile(b, depth, slots);
                match (s1, s2) {
                    (Ok(a1), Ok(a2)) => {
                        proof {
                            lemma_av_wf_mono_auto(a1, slots@.len());
                        }
                        Ok(AutomatedValue::Mul(Box::new(a1), Box::new(a2)))
                    },
                    (Err(e), _) => Err(e),
                    (_, Err(e)) => Err(e),
                }
            },
        }
    }
}

/// Whether an out-selector is valid for the pool.
pub open spec fn out_sel_ok(out: OutBufferSpec, num_buffers: nat) -> bool {
    out matches OutBufferSpec::Buffer(j) ==> j < num_buffers
}

/// Whether an oscillator specification instantiates.
pub open spec fn oscillator_spec_ok(
    o: crate::oscillator::Oscillator,
    ts: Seq<TemplateSpec>,
    depth: nat,
    num_buffers: nat,
) -> bool {
    &&& compile_ok(o.frequency, ts, depth)
    &&& compile_ok(o.out_spec.out_level, ts, depth)
    &&& out_sel_ok(o.out_spec.out_buffer, num_buffers)
    &&& match o.modulation {
        crate::oscillator::Modulation::Plain => true,
        crate::oscillator::Modulation::ByPhase { mod_buffer } => crate::oscillator::in_sel_wf(
            mod_buffer,
            o.out_spec.out_buffer,
            num_buffers,
        ),
        crate::oscillator::Modulation::ByFrequency { mod_buffer } => crate::oscillator::in_sel_wf(
            mod_buffer,
            o.out_spec.out_buffer,
            num_buffers,
        ),
    }
}

/// Whether a stage specification instantiates: its sources compile and its
/// buffer selectors are in range and alias-free.
pub open spec fn stage_spec_ok(
    s: StageSpec,
    ts: Seq<TemplateSpec>,
    depth: nat,
    num_buffers: nat,
) -> bool {
    match s {
        StageSpec::Oscillator(o) => oscillator_spec_ok(o, ts, depth, num_buffers),
        StageSpec::Filter(f) => (match f.kind {
            FilterKind::Clip { limit } => compile_ok(limit, ts, depth),
            FilterKind::Pow3 => true,
            FilterKind::LowPass { cutoff } => compile_ok(cutoff, ts, depth),
            FilterKind::HighPass { cutoff } => compile_ok(cutoff, ts, depth),
            FilterKind::LowPass2 { resonance, quality } => compile_ok(resonance, ts, depth)
                && compile_ok(quality, ts, depth),
            FilterKind::HighPass2 { resonance, quality } => compile_ok(resonance, ts, depth)
                && compile_ok(quality, ts, depth),
        }) && compile_ok(f.out_spec.out_level, ts, depth) && out_sel_ok(
            f.out_spec.out_buffer,
            num_buffers,
        ) && crate::oscillator::in_sel_wf(f.in_buffer, f.out_spec.out_buffer, num_buffers),
        StageSpec::Signal(g) => compile_ok(g.out_spec.out_level, ts, depth) && out_sel_ok(
            g.out_spec.out_buffer,
            num_buffers,
        ),
        StageSpec::Waveguide(w) => compile_ok(w.frequency, ts, depth) && compile_ok(
            w.cutoff,
            ts,
            depth,
        ) && compile_ok(w.feedback, ts, depth) && compile_ok(w.out_spec.out_level, ts, depth)
            && out_sel_ok(w.out_spec.out_buffer, num_buffers) && crate::oscillator::in_sel_wf(
            w.in_buffer,
            w.out_spec.out_buffer,
            num_buffers,
        ),
        StageSpec::RingModulator(rm) => compile_ok(rm.out_spec.out_level, ts, depth)
            && out_sel_ok(rm.out_spec.out_buffer, num_buffers) && crate::oscillator::in_sel_wf(
            rm.in_buffers.0,
            rm.out_spec.out_buffer,
            num_buffers,
        ) && crate::oscillator::in_sel_wf(rm.in_buffers.1, rm.out_spec.out_buffer, num_buffers),
    }
}

/// Whether an envelope specification instantiates.
pub open spec fn envelope_spec_ok(e: EnvelopeSpec, ts: Seq<TemplateSpec>, depth: nat) -> bool {
    &&& compile_ok(e.amplitude, ts, depth)
    &&& compile_ok(e.fadeout, ts, depth)
    &&& compile_ok(e.attack_time, ts, depth)
    &&& compile_ok(e.decay_rate, ts, depth)
    &&& compile_ok(e.release_time, ts, depth)
}

/// A creator with a sane number of templates.
pub open spec fn creator_wf(c: Creator) -> bool {
    c.templates@.len() <= 0x1_0000
}

impl Creator {
    /// The template-expansion budget: a chain longer than the number of
    /// templates must repeat a name.
    fn depth_budget(&self) -> (r: usize)
        requires
            creator_wf(*self),
        ensures
            r == self.templates@.len() + 1,
    {
        self.templates.len() + 1
    }

    /// Instantiates an envelope specification.
    pub fn create_envelope(&self, spec: &EnvelopeSpec) -> (r: Result<Envelope, ConfigError>)
        requires
            creator_wf(*self),
        ensures
            r is Ok <==> envelope_spec_ok(*spec, self.templates@, self.templates@.len() + 1),
            r matches Ok(e) ==> crate::envelope::env_wf(e) && !e.released && e.elapsed.raw == 0
                && e.decay_factor.raw == crate::fx::FX_ONE_RAW && e.release_progress.raw
                == crate::fx::FX_ONE_RAW && e.damper.raw == 0,
    {
        let depth = self.depth_budget();
        let mut slots: Vec<u64> = Vec::new();
        let amplitude = match self.compile(&spec.amplitude, depth, &mut slots) {
            Ok(a) => a,
            Err(e) => { return Err(e) },
        };
        let fadeout = match self.compile(&spec.fadeout, depth, &mut slots) {
            Ok(a) => a,
            Err(e) => { return Err(e) },
        };
        let attack_time = match self.compile(&spec.attack_time, depth, &mut slots) {
            Ok(a) => a,
            Err(e) => { return Err(e) },
        };
        let decay_rate = match self.compile(&spec.decay_rate, depth, &mut slots) {
            Ok(a) => a,
            Err(e) => { return Err(e) },
        };
        let release_time = match self.compile(&spec.release_time, depth, &mut slots) {
            Ok(a) => a,
            Err(e) => { return Err(e) },
        };
        proof {
            lemma_av_wf_mono_auto(amplitude, slots@.len());
            lemma_av_wf_mono_auto(fadeout, slots@.len());
            lemma_av_wf_mono_auto(attack_time, slots@.len());
            lemma_av_wf_mono_auto(decay_rate, slots@.len());
        }
        Ok(
            Envelope {
                amplitude,
                fadeout,
                attack_time,
                decay_rate,
                release_time,
                states: slots,
                elapsed: Fx { raw: 0 },
                decay_factor: Fx { raw: crate::fx::FX_ONE_RAW },
                released: false,
                release_progress: Fx { raw: crate::fx::FX_ONE_RAW },
                damper: Fx { raw: 0 },
            },
        )
    }

    /// Instantiates one stage specification against a pool with
    /// `num_buffers` named buffers.  The seed feeds the noise generator of
    /// a signal stage.
    pub fn create_stage(&self, spec: &StageSpec, num_buffers: usize, seed: u64) -> (r: Result<
        Stage,
        ConfigError,
    >)
        requires
            creator_wf(*self),
        ensures
            r is Ok <==> stage_spec_ok(
                *spec,
                self.templates@,
                self.templates@.len() + 1,
                num_buffers as nat,
            ),
            r matches Ok(st) ==> stage_wf(st, num_buffers as nat),
            r matches Ok(st) ==> stage_matches(
                *spec,
                st,
                self.templates@,
                (self.templates@.len() + 1) as nat,
            ),
    {
        let depth = self.depth_budget();
        match spec {
            StageSpec::Oscillator(o) => {
                match create_oscillator_stage(self, o, num_buffers) {
                    Ok(st) => Ok(Stage::Oscillator(st)),
                    Err(e) => Err(e),
                }
            },
            StageSpec::Filter(f) => {
                let mut slots: Vec<u64> = Vec::new();
                let kind: FilterKindStage = match &f.kind {
                    FilterKind::Clip { limit } => {
                        let limit = match self.compile(limit, depth, &mut slots) {
                            Ok(a) => a,
                            Err(e) => { return Err(e) },
                        };
                        FilterKindStage::Clip { limit }
                    },
                    FilterKind::Pow3 => FilterKindStage::Pow3,
                    FilterKind::LowPass { cutoff } => {
                        let cutoff = match self.compile(cutoff, depth, &mut slots) {
                            Ok(a) => a,
                            Err(e) => { return Err(e) },
                        };
                        FilterKindStage::LowPass { cutoff }
                    },
                    FilterKind::HighPass { cutoff } => {
                        let cutoff = match self.compile(cutoff, depth, &mut slots) {
                            Ok(a) => a,
                            Err(e) => { return Err(e) },
                        };
                        FilterKindStage::HighPass { cutoff }
                    },
                    FilterKind::LowPass2 { resonance, quality } => {
                        let resonance = match self.compile(resonance, depth, &mut slots) {
                            Ok(a) => a,
                            Err(e) => { return Err(e) },
                        };
                        let quality = match self.compile(quality, depth, &mut slots) {
                            Ok(a) => a,
                            Err(e) => { return Err(e) },
                        };
                        proof {
                            lemma_av_wf_mono_auto(resonance, slots@.len());
                        }
                        FilterKindStage::LowPass2 { resonance, quality }
                    },
                    FilterKind::HighPass2 { resonance, quality } => {
                        let resonance = match self.compile(resonance, depth, &mut slots) {
                            Ok(a) => a,
                            Err(e) => { return Err(e) },
                        };
                        let quality = match self.compile(quality, depth, &mut slots) {
                            Ok(a) => a,
                            Err(e) => { return Err(e) },
                        };
                        proof {
                            lemma_av_wf_mono_auto(resonance, slots@.len());
                        }
                        FilterKindStage::HighPass2 { resonance, quality }
                    },
                };
                let out_level = match self.compile(&f.out_spec.out_level, depth, &mut slots) {
                    Ok(a) => a,
                    Err(e) => { return Err(e) },
                };
                if !check_out(&f.out_spec.out_buffer, num_buffers) || !check_in(
                    &f.in_buffer,
                    &f.out_spec.out_buffer,
                    num_buffers,
                ) {
                    return Err(config_error("invalid buffer in stage ", "filter"));
                }
                proof {
                    let ghost gk = kind;
                    match gk {
                        FilterKindStage::Clip { limit } => lemma_av_wf_mono_auto(
                            limit,
                            slots@.len(),
                        ),
                        FilterKindStage::Pow3 => {},
                        FilterKindStage::LowPass { cutoff } => lemma_av_wf_mono_auto(
                            cutoff,
                            slots@.len(),
                        ),
                        FilterKindStage::HighPass { cutoff } => lemma_av_wf_mono_auto(
                            cutoff,
                            slots@.len(),
                        ),
                        FilterKindStage::LowPass2 { resonance, quality } => {
                            lemma_av_wf_mono_auto(resonance, slots@.len());
                            lemma_av_wf_mono_auto(quality, slots@.len());
                        },
                        FilterKindStage::HighPass2 { resonance, quality } => {
                            lemma_av_wf_mono_auto(resonance, slots@.len());
                            lemma_av_wf_mono_auto(quality, slots@.len());
                        },
                    }
                }
                Ok(
                    Stage::Filter(
                        FilterStage {
                            kind,
                            in_buffer: f.in_buffer,
                            out_buffer: f.out_spec.out_buffer,
                            out_level,
                            states: slots,
                            memory: FilterMemory::zero(),
                        },
                    ),
                )
            },
            StageSpec::Signal(g) => {
                let mut slots: Vec<u64> = Vec::new();
                let out_level = match self.compile(&g.out_spec.out_level, depth, &mut slots) {
                    Ok(a) => a,
                    Err(e) => { return Err(e) },
                };
                if !check_out(&g.out_spec.out_buffer, num_buffers) {
                    return Err(config_error("invalid buffer in stage ", "signal"));
                }
                Ok(
                    Stage::Signal(
                        SignalStage {
                            kind: g.kind,
                            out_buffer: g.out_spec.out_buffer,
                            out_level,
                            states: slots,
                            rng: seed | 1,
                        },
                    ),
                )
            },
            StageSpec::Waveguide(w) => {
                let mut slots: Vec<u64> = Vec::new();
                let frequency = match self.compile(&w.frequency, depth, &mut slots) {
                    Ok(a) => a,
                    Err(e) => { return Err(e) },
                };
                let cutoff = match self.compile(&w.cutoff, depth, &mut slots) {
                    Ok(a) => a,
                    Err(e) => { return Err(e) },
                };
                let feedback = match self.compile(&w.feedback, depth, &mut slots) {
                    Ok(a) => a,
                    Err(e) => { return Err(e) },
                };
                let out_level = match self.compile(&w.out_spec.out_level, depth, &mut slots) {
                    Ok(a) => a,
                    Err(e) => { return Err(e) },
                };
                if !check_out(&w.out_spec.out_buffer, num_buffers) || !check_in(
                    &w.in_buffer,
                    &w.out_spec.out_buffer,
                    num_buffers,
                ) {
                    return Err(config_error("invalid buffer in stage ", "waveguide"));
                }
                let ring = self.waveguide_ring(w.buffer_size);
                proof {
                    lemma_av_wf_mono_auto(frequency, slots@.len());
                    lemma_av_wf_mono_auto(cutoff, slots@.len());
                    lemma_av_wf_mono_auto(feedback, slots@.len());
                }
                Ok(
                    Stage::Waveguide(
                        WaveguideStage {
                            frequency,
                            cutoff,
                            feedback,
                            reflectance: w.reflectance,
                            in_buffer: w.in_buffer,
                            out_buffer: w.out_spec.out_buffer,
                            out_level,
                            states: slots,
                            ring,
                            pos: 0,
                            y1: Fx { raw: 0 },
                        },
                    ),
                )
            },
            StageSpec::RingModulator(rm) => {
                let mut slots: Vec<u64> = Vec::new();
                let out_level = match self.compile(&rm.out_spec.out_level, depth, &mut slots) {
                    Ok(a) => a,
                    Err(e) => { return Err(e) },
                };
                if !check_out(&rm.out_spec.out_buffer, num_buffers) || !check_in(
                    &rm.in_buffers.0,
                    &rm.out_spec.out_buffer,
                    num_buffers,
                ) || !check_in(&rm.in_buffers.1, &rm.out_spec.out_buffer, num_buffers) {
                    return Err(config_error("invalid buffer in stage ", "ring modulator"));
                }
                Ok(
                    Stage::RingModulator(
                        RingModStage {
                            in_buffers: rm.in_buffers,
                            out_buffer: rm.out_spec.out_buffer,
                            out_level,
                            states: slots,
                        },
                    ),
                )
            },
        }
    }

    /// Allocates the ring buffer of a waveguide, clamped to a sane
    /// capacity.
    fn waveguide_ring(&self, buffer_size: usize) -> (r: Vec<i64>)
        ensures
            1 <= r@.len() <= 0x10_0000,
            forall|i: int| 0 <= i < r@.len() ==> r@[i] == 0,
    {
        let num: usize = if buffer_size == 0 {
            1
        } else if buffer_size > 0x10_0000 {
            0x10_0000
        } else {
            buffer_size
        };
        let mut ring: Vec<i64> = Vec::new();
        let mut i: usize = 0;
        while i < num
            invariant
                i <= num,
                1 <= num <= 0x10_0000,
                ring@.len() == i,
                forall|k: int| 0 <= k < i ==> ring@[k] == 0,
            decreases num - i,
        {
            ring.push(0);
            i = i + 1;
        }
        ring
    }
}

/// Instantiates one oscillator specification.
pub(crate) fn create_oscillator_stage(
    creator: &Creator,
    o: &crate::oscillator::Oscillator,
    num_buffers: usize,
) -> (r: Result<OscillatorStage, ConfigError>)
    requires
        creator_wf(*creator),
    ensures
        r is Ok <==> oscillator_spec_ok(
            *o,
            creator.templates@,
            creator.templates@.len() + 1,
            num_buffers as nat,
        ),
        r matches Ok(st) ==> crate::oscillator::osc_wf(st, num_buffers as nat) && st.phase == 0,
        r matches Ok(st) ==> st.kind == o.kind && st.modulation == o.modulation && st.out_buffer
            == o.out_spec.out_buffer && compiled_matches(
            o.frequency,
            st.frequency,
            creator.templates@,
            (creator.templates@.len() + 1) as nat,
        ) && compiled_matches(
            o.out_spec.out_level,
            st.out_level,
            creator.templates@,
            (creator.templates@.len() + 1) as nat,
        ),
{
    let depth = creator.depth_budget();
    let mut slots: Vec<u64> = Vec::new();
    let frequency = match creator.compile(&o.frequency, depth, &mut slots) {
        Ok(a) => a,
        Err(e) => { return Err(e) },
    };
    let out_level = match creator.compile(&o.out_spec.out_level, depth, &mut slots) {
        Ok(a) => a,
        Err(e) => { return Err(e) },
    };
    if !check_out(&o.out_spec.out_buffer, num_buffers) {
        return Err(config_error("invalid buffer in stage ", "oscillator"));
    }
    let mod_ok = match &o.modulation {
        crate::oscillator::Modulation::Plain => true,
        crate::oscillator::Modulation::ByPhase { mod_buffer } => check_in(
            mod_buffer,
            &o.out_spec.out_buffer,
            num_buffers,
        ),
        crate::oscillator::Modulation::ByFrequency { mod_buffer } => check_in(
            mod_buffer,
            &o.out_spec.out_buffer,
            num_buffers,
        ),
    };
    if !mod_ok {
        return Err(config_error("invalid buffer in stage ", "oscillator"));
    }
    proof {
        lemma_av_wf_mono_auto(frequency, slots@.len());
    }
    Ok(
        OscillatorStage {
            kind: o.kind,
            modulation: clone_modulation(&o.modulation),
            frequency,
            out_buffer: o.out_spec.out_buffer,
            out_level,
            states: slots,
            phase: 0,
        },
    )
}

/// Whether every envelope and every stage of a configuration
/// instantiates within the given templates and buffer pool.
pub open spec fn config_valid(
    c: crate::assets::MicrowaveConfig,
    ts: Seq<TemplateSpec>,
    num_buffers: nat,
) -> bool {
    let depth = ts.len() + 1;
    &&& forall|i: int|
        0 <= i < c.waveform_envelopes@.len() ==> envelope_spec_ok(
            (#[trigger] c.waveform_envelopes@[i]).spec,
            ts,
            depth,
        )
    &&& forall|i: int, k: int|
        0 <= i < c.waveforms@.len() && 0 <= k < c.waveforms@[i].stages@.len() ==> stage_spec_ok(
            #[trigger] c.waveforms@[i].stages@[k],
            ts,
            depth,
            num_buffers,
        )
}

/// Validates a configuration when it is loaded: every envelope and every
/// stage of every waveform must instantiate, so a template cycle, an
/// unknown template or a bad buffer selector is a fatal error before any
/// voice starts.
pub fn validate_config(
    config: &crate::assets::MicrowaveConfig,
    creator: &Creator,
    num_buffers: usize,
) -> (r: Result<(), ConfigError>)
    requires
        creator_wf(*creator),
    ensures
        r is Ok <==> config_valid(*config, creator.templates@, num_buffers as nat),
{
    let ne = config.waveform_envelopes.len();
    let mut i: usize = 0;
    while i < ne
        invariant
            i <= ne,
            ne == config.waveform_envelopes@.len(),
            creator_wf(*creator),
            forall|m: int|
                0 <= m < i ==> envelope_spec_ok(
                    (#[trigger] config.waveform_envelopes@[m]).spec,
                    creator.templates@,
                    creator.templates@.len() + 1,
                ),
        decreases ne - i,
    {
        match creator.create_envelope(&config.waveform_envelopes[i].spec) {
            Ok(_) => {},
            Err(e) => { return Err(e) },
        }
        i = i + 1;
    }
    let nw = config.waveforms.len();
    let mut w: usize = 0;
    while w < nw
        invariant
            w <= nw,
            nw == config.waveforms@.len(),
            creator_wf(*creator),
            forall|m: int|
                0 <= m < config.waveform_envelopes@.len() ==> envelope_spec_ok(
                    (#[trigger] config.waveform_envelopes@[m]).spec,
                    creator.templates@,
                    creator.templates@.len() + 1,
                ),
            forall|m: int, k: int|
                0 <= m < w && 0 <= k < config.waveforms@[m].stages@.len() ==> stage_spec_ok(
                    #[trigger] config.waveforms@[m].stages@[k],
                    creator.templates@,
                    creator.templates@.len() + 1,
                    num_buffers as nat,
                ),
        decreases nw - w,
    {
        let ns = config.waveforms[w].stages.len();
        let mut k: usize = 0;
        while k < ns
            invariant
                k <= ns,
                w < nw,
                nw == config.waveforms@.len(),
                ns == config.waveforms@[w as int].stages@.len(),
                creator_wf(*creator),
                forall|m: int|
                    0 <= m < k ==> stage_spec_ok(
                        #[trigger] config.waveforms@[w as int].stages@[m],
                        creator.templates@,
                        creator.templates@.len() + 1,
                        num_buffers as nat,
                    ),
            decreases ns - k,
        {
            match creator.create_stage(&config.waveforms[w].stages[k], num_buffers, 1) {
                Ok(_) => {},
                Err(e) => { return Err(e) },
            }
            k = k + 1;
        }
        w = w + 1;
    }
    Ok(())
}

/// Copies a modulation selector.
fn clone_modulation(m: &crate::oscillator::Modulation) -> (r: crate::oscillator::Modulation)
    ensures
        r == *m,
{
    match m {
        crate::oscillator::Modulation::Plain => crate::oscillator::Modulation::Plain,
        crate::oscillator::Modulation::ByPhase { mod_buffer } =>
            crate::oscillator::Modulation::ByPhase { mod_buffer: *mod_buffer },
        crate::oscillator::Modulation::ByFrequency { mod_buffer } =>
            crate::oscillator::Modulation::ByFrequency { mod_buffer: *mod_buffer },
    }
}

/// Checks an out-selector against the pool size.
fn check_out(out: &OutBufferSpec, num_buffers: usize) -> (r: bool)
    ensures
        r == out_sel_ok(*out, num_buffers as nat),
{
    match out {
        OutBufferSpec::Buffer(j) => *j < num_buffers,
        OutBufferSpec::AudioOut => true,
    }
}

/// Checks an in-selector against the pool size and the destination.
fn check_in(sel: &InBufferSpec, out: &OutBufferSpec, num_buffers: usize) -> (r: bool)
    ensures
        r == crate::oscillator::in_sel_wf(*sel, *out, num_buffers as nat),
{
    match sel {
        InBufferSpec::Buffer(j) => {
            if *j >= num_buffers {
                false
            } else {
                match out {
                    OutBufferSpec::Buffer(k) => *k != *j,
                    OutBufferSpec::AudioOut => true,
                }
            }
        },
        InBufferSpec::AudioIn => true,
    }
}

/// Applies the monotonicity lemma when the premise holds for some shorter
/// length; stated as a helper so call sites stay one line.
proof fn lemma_av_wf_mono_auto(s: AutomatedValue, m: nat)
    ensures
        forall|n: nat| n <= m && #[trigger] av_wf(s, n) ==> av_wf(s, m),
{
    assert forall|n: nat| n <= m && #[trigger] av_wf(s, n) implies av_wf(s, m) by {
        lemma_av_wf_mono(s, n, m);
    }
}

/// `find_template` on the whole sequence, at the first match.
proof fn lemma_find_template_skip(ts: Seq<TemplateSpec>, name: Seq<char>, i: int)
    requires
        0 <= i < ts.len(),
        (match find_template(ts.skip(i), name) {
            Option::Some(j) => find_template(ts, name) == Option::Some(j + i),
            Option::None => find_template(ts, name) is None,
        }),
        ts[i].name@ == name,
    ensures
        find_template(ts, name) == Option::Some(i),
{
    assert(ts.skip(i)[0] == ts[i]);
    assert(find_template(ts.skip(i), name) == Option::Some(0int));
}

/// `find_template` steps past a non-matching head.
proof fn lemma_find_template_skip_step(ts: Seq<TemplateSpec>, name: Seq<char>, i: int)
    requires
        0 <= i < ts.len(),
        ts[i].name@ != name,
    ensures
        find_template(ts.skip(i), name) == match find_template(ts.skip(i + 1), name) {
            Option::Some(j) => Option::Some(j + 1),
            Option::None => Option::None,
        },
{
    assert(ts.skip(i)[0] == ts[i]);
    assert(ts.skip(i).skip(1) =~= ts.skip(i + 1));
}

} // verus!
