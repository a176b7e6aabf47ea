//! Configuration, creator and dispatch-support behaviour.

use microwave::assets::get_builtin_waveforms;
use microwave::buffer::OutBufferSpec;
use microwave::control::LiveParameter;
use microwave::creator::Creator;
use microwave::midi::{ChannelMessage, ChannelMessageType};
use microwave::options::{parse_keyboard_colors, ControlChangeParameters, KeyColor};
use microwave::fx::Fx;
use microwave::oscillator::{Modulation, Oscillator, OscillatorKind};
use microwave::pitch::Ratio;
use microwave::scala::{pitch_of, KbmRoot, Scl};
use microwave::midi::{MidiOutBackend, MidiOutMessage, TuningMethod};
use microwave::piano::{Event, Location, PianoEngine};
use microwave::source::LfSource;
use microwave::synth::SourceId;
use microwave::waveform::{OutSpec, TemplateSpec};

#[test]
fn builtin_config_is_complete() {
    let config = get_builtin_waveforms();
    assert_eq!(config.waveform_templates.len(), 6);
    assert_eq!(config.waveform_envelopes.len(), 4);
    assert_eq!(config.waveforms.len(), 38);
    let names: Vec<&str> = config.waveforms.iter().map(|w| w.name.as_str()).collect();
    assert!(names.contains(&"Sine"));
    assert!(names.contains(&"Rock Organ 1"));
    assert!(names.contains(&"Ring Modulation 1"));
    let envelopes: Vec<&str> = config
        .waveform_envelopes
        .iter()
        .map(|e| e.name.as_str())
        .collect();
    assert_eq!(envelopes, ["Organ", "Piano", "Pad", "Bell"]);
}

#[test]
fn template_cycle_is_rejected() {
    let templates = vec![
        TemplateSpec {
            name: "A".to_owned(),
            value: LfSource::template("B"),
        },
        TemplateSpec {
            name: "B".to_owned(),
            value: LfSource::template("A"),
        },
    ];
    let creator = Creator::new(templates, 48000);
    let mut slots = Vec::new();
    let depth = 3;
    let err = match creator.compile(&LfSource::template("A"), depth, &mut slots) {
        Err(e) => e,
        Ok(_) => panic!("cycle accepted"),
    };
    assert!(err.message.starts_with("template cycle at "), "{}", err.message);

    let creator2 = Creator::new(Vec::new(), 48000);
    let err2 = match creator2.compile(&LfSource::template("Missing"), 1, &mut slots) {
        Err(e) => e,
        Ok(_) => panic!("missing template accepted"),
    };
    assert_eq!(err2.message, "unknown template Missing");
}

#[test]
fn keyboard_colors_parse_and_reject() {
    let colors = parse_keyboard_colors("wgrwwgrwgrwgrwwgr").unwrap();
    assert_eq!(colors.0.len(), 17);
    assert_eq!(colors.0[0], KeyColor::White);
    assert_eq!(colors.0[1], KeyColor::Green);
    assert_eq!(colors.0[2], KeyColor::Red);
    let err = match parse_keyboard_colors("wgx") {
        Err(e) => e,
        Ok(_) => panic!("invalid character accepted"),
    };
    assert_eq!(err, "Received an invalid character 'x'. Only wrgbcmyk are allowed.");
}

#[test]
fn controller_numbers_map_to_parameters() {
    let params = ControlChangeParameters {
        modulation_ccn: 1,
        breath_ccn: 2,
        foot_ccn: 4,
        volume_ccn: 7,
        expression_ccn: 11,
        damper_ccn: 64,
        sostenuto_ccn: 66,
        soft_ccn: 67,
        legato_ccn: 68,
        sound_1_ccn: 70,
        sound_2_ccn: 71,
        sound_3_ccn: 72,
        sound_4_ccn: 73,
        sound_5_ccn: 74,
        sound_6_ccn: 75,
        sound_7_ccn: 76,
        sound_8_ccn: 77,
        sound_9_ccn: 78,
        sound_10_ccn: 79,
    };
    let mapper = params.to_parameter_mapper();
    assert_eq!(mapper.mappings.len(), 19);
    assert_eq!(mapper.resolve_ccn(64), Some(LiveParameter::Damper));
    assert_eq!(mapper.resolve_ccn(2), Some(LiveParameter::Breath));
    assert_eq!(mapper.resolve_ccn(79), Some(LiveParameter::Sound10));
    assert_eq!(mapper.resolve_ccn(3), None);
}

#[test]
fn midi_messages_parse_exactly() {
    assert_eq!(
        ChannelMessage::from_raw_message(&[0x93, 69, 100]),
        Some(ChannelMessage {
            channel: 3,
            message_type: ChannelMessageType::NoteOn { key: 69, velocity: 100 },
        })
    );
    assert_eq!(
        ChannelMessage::from_raw_message(&[0x85, 69, 0]),
        Some(ChannelMessage {
            channel: 5,
            message_type: ChannelMessageType::NoteOff { key: 69, velocity: 0 },
        })
    );
    assert_eq!(
        ChannelMessage::from_raw_message(&[0xE0, 0x00, 0x60]),
        Some(ChannelMessage {
            channel: 0,
            message_type: ChannelMessageType::PitchBendChange { value: 0x60 * 128 - 8192 },
        })
    );
    // A note-on with the pressure byte missing is rejected, as are system
    // messages and stray data bytes.
    assert_eq!(ChannelMessage::from_raw_message(&[0x93, 69]), None);
    assert_eq!(ChannelMessage::from_raw_message(&[0xF0, 1, 2]), None);
    assert_eq!(ChannelMessage::from_raw_message(&[0x40]), None);
    assert_eq!(ChannelMessage::from_raw_message(&[0x93, 0x80, 1]), None);
}

#[test]
fn equal_temperament_degrees() {
    // A 12-edo scale built from a single semitone step.
    let semitone = Ratio::octave().divided_into_equal_steps(12);
    let scl = Scl {
        period: semitone,
        steps: vec![semitone],
    };
    let kbm = KbmRoot {
        ref_key: 69,
        ref_pitch: microwave::pitch::Pitch::from_hz_u32(440),
        root_offset: 0,
    };
    let a4 = pitch_of(&scl, &kbm, 69);
    assert!((f64::from_bits(a4.as_hz_bits()) - 440.0).abs() < 1e-9);
    let a5 = pitch_of(&scl, &kbm, 81);
    assert!((f64::from_bits(a5.as_hz_bits()) - 880.0).abs() < 1e-6);
    let gis4 = pitch_of(&scl, &kbm, 68);
    let expected = 440.0 / 2f64.powf(1.0 / 12.0);
    assert!((f64::from_bits(gis4.as_hz_bits()) - expected).abs() < 1e-6);
}

#[test]
fn performer_events_follow_the_source_state_machine() {
    let config = microwave::assets::get_builtin_waveforms();
    let creator = Creator::new(config.waveform_templates, 48000);
    let (backend, _synth) = microwave::synth::create(
        config.waveforms,
        config.waveform_envelopes,
        creator,
        Ratio::octave().divided_into_equal_steps(6),
        microwave::synth::ControlChangeNumbers {
            modulation: 1,
            breath: 2,
            foot: 4,
            expression: 11,
            damper: 64,
            sostenuto: 66,
            soft: 67,
        },
        8,
    )
    .unwrap_or_else(|e| panic!("engine: {}", e.message));
    let semitone = Ratio::octave().divided_into_equal_steps(12);
    let scl = Scl { period: semitone, steps: vec![semitone] };
    let kbm = KbmRoot {
        ref_key: 69,
        ref_pitch: microwave::pitch::Pitch::from_hz_u32(440),
        root_offset: 0,
    };
    let mut engine = PianoEngine::new(scl, kbm, backend);

    let id = SourceId::Keyboard(2, 3);
    engine.handle_event(Event::Pressed(id, Location::Degree(69), 100)).unwrap();
    assert_eq!(engine.sounding.len(), 1);
    // A second press for a sounding source releases it first.
    engine.handle_event(Event::Pressed(id, Location::Degree(71), 100)).unwrap();
    assert_eq!(engine.sounding.len(), 1);
    engine.handle_event(Event::Moved(id, Location::Degree(72))).unwrap();
    engine.handle_event(Event::Released(id, 100)).unwrap();
    assert!(engine.sounding.is_empty());
    // Releases for idle sources are ignored.
    engine.handle_event(Event::Released(id, 100)).unwrap();
    assert!(engine.sounding.is_empty());
    // MIDI input routes through the same machine.
    engine
        .handle_midi_event(
            microwave::midi::ChannelMessageType::NoteOn { key: 69, velocity: 90 },
            0,
        )
        .unwrap();
    assert_eq!(engine.sounding.len(), 1);
    engine
        .handle_midi_event(
            microwave::midi::ChannelMessageType::NoteOff { key: 69, velocity: 64 },
            0,
        )
        .unwrap();
    assert!(engine.sounding.is_empty());
}

#[test]
fn oscillator_stage_creation_checks_buffers() {
    let creator = Creator::new(Vec::new(), 48000);
    let good = Oscillator {
        kind: OscillatorKind::Sin,
        frequency: LfSource::Value(Fx::from_frac(440, 1)),
        modulation: Modulation::Plain,
        out_spec: OutSpec {
            out_buffer: OutBufferSpec::Buffer(3),
            out_level: LfSource::Value(Fx::one()),
        },
    };
    assert!(good.create_stage(&creator, 8).is_ok());
    // The destination lies outside a pool of two buffers.
    assert!(good.create_stage(&creator, 2).is_err());
}

#[test]
fn midi_out_allocates_and_frees_channels() {
    let mut backend = MidiOutBackend::new("synth".to_owned(), TuningMethod::FullKeyboard);
    // A quarter tone above A4 needs a detuned channel.
    let quarter_up = microwave::pitch::Ratio::octave().divided_into_equal_steps(24);
    let pitch = microwave::pitch::Pitch::from_hz_u32(440).mul_ratio(quarter_up);
    backend.start(SourceId::Midi(1), pitch, 100);
    let msgs = backend.take_messages();
    assert!(matches!(msgs[0], MidiOutMessage::Tune { channel: 0, .. }));
    assert!(matches!(
        msgs[1],
        MidiOutMessage::Channel {
            channel: 0,
            message: microwave::midi::ChannelMessageType::NoteOn { .. }
        }
    ));
    assert!(backend.tuned);

    // A second note at the same offset shares the channel.
    backend.start(SourceId::Midi(2), pitch, 100);
    let msgs = backend.take_messages();
    assert_eq!(msgs.len(), 1, "no retune needed: {msgs:?}");

    backend.stop(SourceId::Midi(1), 100);
    backend.stop(SourceId::Midi(2), 100);
    let msgs = backend.take_messages();
    assert_eq!(msgs.len(), 2);
    // All channels are free again.
    assert!(backend.channel_detunes.iter().all(|d| d.is_none()));
}
