//! Block-level behaviour of the modular audio engine.

use microwave::assets::get_builtin_waveforms;
use microwave::buffer::{InBufferSpec, Magnetron, OutBufferSpec};
use microwave::creator::Creator;
use microwave::filter::RingModulator;
use microwave::fx::Fx;
use microwave::oscillator::{Modulation, Oscillator, OscillatorKind};
use microwave::pitch::{Pitch, Ratio};
use microwave::source::LfSource;
use microwave::synth::{
    create, Message, SourceId, WaveformBackend, WaveformState, WaveformSynth,
};
use microwave::waveform::{OutSpec, StageSpec, TemplateSpec, WaveformSpec};

const SR: u32 = 48000;

fn fxf(x: f64) -> Fx {
    Fx::from_raw((x * 4294967296.0).round() as i64)
}

fn to_f(raw: i64) -> f64 {
    raw as f64 / 4294967296.0
}

fn make_engine(block: usize) -> (WaveformBackend, WaveformSynth, Vec<i64>) {
    let config = get_builtin_waveforms();
    let creator = Creator::new(config.waveform_templates, SR);
    let (backend, synth) = create(
        config.waveforms,
        config.waveform_envelopes,
        creator,
        Ratio::octave().divided_into_equal_steps(6),
        microwave::synth::ControlChangeNumbers {
            modulation: 1,
            breath: 2,
            foot: 4,
            expression: 11,
            damper: 64,
            sostenuto: 66,
            soft: 67,
        },
        8,
    )
    .unwrap_or_else(|e| panic!("engine: {}", e.message));
    (backend, synth, vec![0i64; block * 2])
}

fn pump(backend: &mut WaveformBackend, synth: &mut WaveformSynth, buffer: &mut Vec<i64>) {
    for v in buffer.iter_mut() {
        *v = 0;
    }
    let msgs = backend.take_messages();
    synth.enqueue(msgs);
    let audio_in = Vec::new();
    synth.write(buffer, &audio_in);
}

fn select_waveform(backend: &mut WaveformBackend, name: &str) {
    let count = backend.waveforms.len();
    for i in 0..count {
        backend.program_change(i);
        let info = backend.send_status();
        if info.waveform_name == name {
            return;
        }
    }
    panic!("waveform {name} not found");
}

#[test]
fn buffer_pool_clears_and_accumulates() {
    let mut pool = Magnetron::new(4);
    pool.clear(64);
    for j in 0..4 {
        for i in 0..64 {
            assert_eq!(pool.read(InBufferSpec::Buffer(j), i).raw, 0);
        }
    }
    // A constant generator at level k sums k at every index.
    let k = fxf(0.25);
    let v = fxf(0.5);
    for i in 0..64 {
        pool.add(OutBufferSpec::Buffer(2), i, k.mul(v));
    }
    for i in 0..64 {
        let got = to_f(pool.read(InBufferSpec::Buffer(2), i).raw);
        assert!((got - 0.125).abs() < 1e-9);
        assert_eq!(pool.read(InBufferSpec::Buffer(1), i).raw, 0);
    }
}

#[test]
fn sine_voice_peaks_at_one_tenth() {
    let block = 256usize;
    let (mut backend, mut synth, mut buffer) = make_engine(block);
    select_waveform(&mut backend, "Sine");
    backend
        .start(SourceId::Mouse, 0, Pitch::from_hz_u32(440), 127)
        .unwrap_or_else(|e| panic!("start: {}", e.message));

    let blocks_per_sec = SR as usize / block;
    let mut sustain_peak: f64 = 0.0;
    for b in 0..blocks_per_sec {
        pump(&mut backend, &mut synth, &mut buffer);
        if b > blocks_per_sec / 10 {
            for &s in buffer.iter() {
                sustain_peak = sustain_peak.max(to_f(s).abs());
            }
        }
    }
    assert!(
        sustain_peak > 0.09 && sustain_peak < 0.11,
        "sustain peak {sustain_peak}"
    );

    backend.stop(SourceId::Mouse, 100);
    // Organ release time is 10 ms; within 20 ms the voice is retired.
    for _ in 0..4 {
        pump(&mut backend, &mut synth, &mut buffer);
    }
    pump(&mut backend, &mut synth, &mut buffer);
    let residue: f64 = buffer.iter().map(|&s| to_f(s).abs()).fold(0.0, f64::max);
    assert!(residue < 1e-4, "residue {residue}");
    assert!(synth.state.playing.is_empty());
}

#[test]
fn additive_organ_matches_shape_sum() {
    let block = 64usize;
    let (mut backend, mut synth, mut buffer) = make_engine(block);
    select_waveform(&mut backend, "Rock Organ 1");
    backend
        .start(SourceId::Mouse, 0, Pitch::from_hz_u32(100), 127)
        .unwrap_or_else(|e| panic!("start: {}", e.message));

    let levels = [8.0 / 15.0, -4.0 / 15.0, 2.0 / 15.0, -1.0 / 15.0];
    let freqs = [100.0, 200.0, 400.0, 800.0];
    let attack = 0.01;
    let block_secs = block as f64 / SR as f64;

    for b in 0..2 {
        pump(&mut backend, &mut synth, &mut buffer);
        let env = (((b + 1) as f64 * block_secs) / attack).clamp(0.0, 1.0);
        for i in 0..block {
            let t = i as f64 / SR as f64;
            let mut expected = 0.0;
            for k in 0..4 {
                let phase = (freqs[k] * (b as f64 * block_secs + t)).fract();
                expected += levels[k] * (2.0 * std::f64::consts::PI * phase).sin();
            }
            expected *= env * 0.1;
            let got = to_f(buffer[2 * i]);
            assert!(
                (got - expected).abs() < 1e-6,
                "block {b} sample {i}: got {got}, expected {expected}"
            );
        }
    }
}

#[test]
fn pitch_bend_shifts_by_sensitivity() {
    // Two semitones of sensitivity at a bend level of +1 multiply the
    // frequency by 2^(2/12).
    let sens = Ratio::octave().divided_into_equal_steps(6);
    let bend = sens.repeated_by(Fx::one());
    let hz = f64::from_bits(Pitch::from_hz_u32(440).mul_ratio(bend).as_hz_bits());
    let expected = 440.0 * 2f64.powf(2.0 / 12.0);
    assert!((hz - expected).abs() < 1e-6, "{hz} vs {expected}");

    // The bend reaches a sounding voice through the render path.
    let block = 256usize;
    let (mut backend, mut synth, mut buffer) = make_engine(block);
    select_waveform(&mut backend, "Sine");
    backend
        .start(SourceId::Mouse, 0, Pitch::from_hz_u32(440), 127)
        .unwrap();
    pump(&mut backend, &mut synth, &mut buffer);
    synth.enqueue(vec![Message::PitchBend { bend_level: Fx::one() }]);
    pump(&mut backend, &mut synth, &mut buffer);
    let bent: f64 = buffer.iter().map(|&s| to_f(s).abs()).fold(0.0, f64::max);
    assert!(bent > 0.01, "voice fell silent under pitch bend");
}

#[test]
fn damper_sustains_released_piano_voice() {
    let block = 256usize;
    let (mut backend, mut synth, mut buffer) = make_engine(block);
    // Cycle the preferred envelope to the piano family (release 0.25 s).
    backend.toggle_envelope_type();
    backend.toggle_envelope_type();
    select_waveform(&mut backend, "Sine");
    backend
        .start(SourceId::Mouse, 0, Pitch::from_hz_u32(220), 127)
        .unwrap();
    // Let the attack finish.
    for _ in 0..8 {
        pump(&mut backend, &mut synth, &mut buffer);
    }
    backend.stop(SourceId::Mouse, 100);
    backend.control_change(64, 127);
    // One second later the voice still sounds: the damper froze the fade.
    let blocks_per_sec = SR as usize / block;
    let mut last_peak = 0.0;
    for _ in 0..blocks_per_sec {
        pump(&mut backend, &mut synth, &mut buffer);
        last_peak = buffer.iter().map(|&s| to_f(s).abs()).fold(0.0, f64::max);
    }
    assert!(last_peak > 1e-3, "damper did not sustain: {last_peak}");

    // Releasing the damper lets the voice fade within its release time.
    backend.control_change(64, 0);
    for _ in 0..(blocks_per_sec * 3 / 10) {
        pump(&mut backend, &mut synth, &mut buffer);
    }
    pump(&mut backend, &mut synth, &mut buffer);
    let residue = buffer.iter().map(|&s| to_f(s).abs()).fold(0.0, f64::max);
    assert!(residue < 1e-4, "voice did not fade: {residue}");
}

#[test]
fn ring_modulation_concentrates_at_sum_and_difference() {
    let block = 4096usize;
    let (mut backend, mut synth, mut buffer) = make_engine(block);
    // A custom patch: two sines at 300 Hz and 450 Hz, multiplied.
    backend.waveforms.push(WaveformSpec {
        name: "test ring".to_owned(),
        envelope: "Organ".to_owned(),
        stages: vec![
            StageSpec::Oscillator(Oscillator {
                kind: OscillatorKind::Sin,
                frequency: LfSource::Value(fxf(300.0)),
                modulation: Modulation::Plain,
                out_spec: OutSpec {
                    out_buffer: OutBufferSpec::Buffer(0),
                    out_level: LfSource::Value(Fx::one()),
                },
            }),
            StageSpec::Oscillator(Oscillator {
                kind: OscillatorKind::Sin,
                frequency: LfSource::Value(fxf(450.0)),
                modulation: Modulation::Plain,
                out_spec: OutSpec {
                    out_buffer: OutBufferSpec::Buffer(1),
                    out_level: LfSource::Value(Fx::one()),
                },
            }),
            StageSpec::RingModulator(RingModulator {
                in_buffers: (InBufferSpec::Buffer(0), InBufferSpec::Buffer(1)),
                out_spec: OutSpec {
                    out_buffer: OutBufferSpec::AudioOut,
                    out_level: LfSource::Value(Fx::one()),
                },
            }),
        ],
    });
    let last = backend.waveforms.len() - 1;
    backend.program_change(last);
    backend
        .start(SourceId::Mouse, 0, Pitch::from_hz_u32(100), 127)
        .unwrap();
    // Skip the attack, then take one window.
    for _ in 0..12 {
        pump(&mut backend, &mut synth, &mut buffer);
    }
    let window: Vec<f64> = (0..block).map(|i| to_f(buffer[2 * i])).collect();

    let bin_mag = |f: f64| -> f64 {
        let mut re = 0.0;
        let mut im = 0.0;
        for (i, &s) in window.iter().enumerate() {
            let w = 2.0 * std::f64::consts::PI * f * i as f64 / SR as f64;
            re += s * w.cos();
            im += s * w.sin();
        }
        (re * re + im * im).sqrt()
    };
    let difference = bin_mag(150.0);
    let sum = bin_mag(750.0);
    let stray = bin_mag(300.0).max(bin_mag(450.0)).max(bin_mag(600.0));
    assert!(
        difference > 20.0 * stray && sum > 20.0 * stray,
        "difference {difference}, sum {sum}, stray {stray}"
    );
}

#[test]
fn dispatch_keeps_one_voice_and_clears_on_stop() {
    let block = 256usize;
    let (mut backend, mut synth, mut buffer) = make_engine(block);
    select_waveform(&mut backend, "Sine");
    let id = SourceId::Midi(1);

    backend.start(id, 0, Pitch::from_hz_u32(440), 100).unwrap();
    pump(&mut backend, &mut synth, &mut buffer);
    assert_eq!(synth.state.playing.len(), 1);

    let bent = Pitch::from_hz_bits(466.16f64.to_bits()).unwrap();
    backend.update_pitch(id, 0, bent);
    pump(&mut backend, &mut synth, &mut buffer);
    assert_eq!(synth.state.playing.len(), 1);
    let p = &synth.state.playing[0].1.properties.pitch;
    let hz = f64::from_bits(p.as_hz_bits());
    assert!((hz - 466.16).abs() < 1e-6, "pitch after update: {hz}");

    backend.stop(id, 100);
    pump(&mut backend, &mut synth, &mut buffer);
    for (key, _) in synth.state.playing.iter() {
        assert!(
            !matches!(key, WaveformState::Stable(SourceId::Midi(1))),
            "stable voice survived its stop"
        );
    }
}

#[test]
fn released_voice_retires_within_release_and_two_blocks() {
    let block = 256usize;
    let (mut backend, mut synth, mut buffer) = make_engine(block);
    select_waveform(&mut backend, "Sine");
    backend
        .start(SourceId::Touchpad(7), 0, Pitch::from_hz_u32(330), 127)
        .unwrap();
    for _ in 0..8 {
        pump(&mut backend, &mut synth, &mut buffer);
    }
    backend.stop(SourceId::Touchpad(7), 100);
    // Organ: release 10 ms at 48 kHz, block 256 -> three blocks suffice.
    let release_blocks = (0.01 * SR as f64 / block as f64).ceil() as usize + 2;
    for _ in 0..release_blocks {
        pump(&mut backend, &mut synth, &mut buffer);
    }
    assert!(synth.state.playing.is_empty(), "voice was not retired");
}

#[test]
fn damper_pedal_stores_cubed_pressure() {
    let (mut backend, mut synth, mut buffer) = make_engine(64);
    backend.control_change(64, 64);
    pump(&mut backend, &mut synth, &mut buffer);
    // The pedal curve is the cube of the normalized 7-bit value.
    let c: i64 = (64i64 << 32) / 127;
    let c2: i64 = ((c as i128 * c as i128) >> 32) as i64;
    let c3: i64 = ((c2 as i128 * c as i128) >> 32) as i64;
    assert_eq!(synth.state.damper_pedal_pressure.raw, c3);
    // Half pedal gives an eighth of the effect, not half.
    let stored = to_f(synth.state.damper_pedal_pressure.raw);
    assert!((stored - 0.5f64.powi(3)).abs() < 1e-2, "not cubed: {stored}");
}

#[test]
fn restart_of_held_source_fades_the_old_voice() {
    let (mut backend, mut synth, mut buffer) = make_engine(64);
    let id = SourceId::Mouse;
    backend.start(id, 0, Pitch::from_hz_u32(440), 100).unwrap();
    pump(&mut backend, &mut synth, &mut buffer);
    assert_eq!(synth.state.playing.len(), 1);
    // A second start for the held source behaves as a stop followed by a
    // start: the old voice keeps sounding as a fading tail beside the new
    // stable voice instead of being replaced silently.
    backend.start(id, 0, Pitch::from_hz_u32(550), 100).unwrap();
    pump(&mut backend, &mut synth, &mut buffer);
    assert_eq!(synth.state.playing.len(), 2);
    let fading = synth
        .state
        .playing
        .iter()
        .filter(|(k, _)| matches!(k, WaveformState::Fading(_)))
        .count();
    let stable = synth
        .state
        .playing
        .iter()
        .filter(|(k, _)| matches!(k, WaveformState::Stable(_)))
        .count();
    assert_eq!(fading, 1, "old voice should fade, not vanish");
    assert_eq!(stable, 1, "new voice should be the one stable voice");
}
