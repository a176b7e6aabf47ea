//! MIDI channel messages: parsing of raw bytes, and the status record of
//! a MIDI-out device.

use vstd::prelude::*;

verus! {

/// The tuning methods a MIDI-out device can be driven with.
#[derive(Clone, Copy, PartialEq, Eq, Structural, Debug)]
pub enum TuningMethod {
    FullKeyboard,
    FullKeyboardRt,
    Octave1,
    Octave1Rt,
    Octave2,
    Octave2Rt,
    ChannelFineTuning,
    PitchBend,
}

/// Status information about the MIDI-out device.
pub struct MidiInfo {
    pub device: String,
    pub tuning_method: Option<TuningMethod>,
    pub program_number: usize,
}

/// A channel voice message.
#[derive(Clone, Copy, PartialEq, Eq, Structural, Debug)]
pub struct ChannelMessage {
    pub channel: u8,
    pub message_type: ChannelMessageType,
}

/// The payload of a channel voice message.
#[derive(Clone, Copy, PartialEq, Eq, Structural, Debug)]
pub enum ChannelMessageType {
    NoteOff { key: u8, velocity: u8 },
    NoteOn { key: u8, velocity: u8 },
    PolyphonicKeyPressure { key: u8, pressure: u8 },
    ControlChange { controller: u8, value: u8 },
    ProgramChange { program: u8 },
    ChannelPressure { pressure: u8 },
    PitchBendChange { value: i16 },
}

/// Whether a byte is a valid data byte (high bit clear).
pub open spec fn data_byte(b: u8) -> bool {
    b < 0x80
}

/// The message a raw byte string parses to, if any: a status byte with
/// the right number of valid data bytes.
pub open spec fn parsed_message(bytes: Seq<u8>) -> Option<ChannelMessage> {
    if bytes.len() == 0 {
        Option::None
    } else {
        let status = bytes[0] / 16;
        let channel = bytes[0] % 16;
        if status == 0x8 && bytes.len() == 3 && data_byte(bytes[1]) && data_byte(bytes[2]) {
            Option::Some(
                ChannelMessage {
                    channel: channel as u8,
                    message_type: ChannelMessageType::NoteOff {
                        key: bytes[1],
                        velocity: bytes[2],
                    },
                },
            )
        } else if status == 0x9 && bytes.len() == 3 && data_byte(bytes[1]) && data_byte(
            bytes[2],
        ) {
            Option::Some(
                ChannelMessage {
                    channel: channel as u8,
                    message_type: ChannelMessageType::NoteOn {
                        key: bytes[1],
                        velocity: bytes[2],
                    },
                },
            )
        } else if status == 0xA && bytes.len() == 3 && data_byte(bytes[1]) && data_byte(
            bytes[2],
        ) {
            Option::Some(
                ChannelMessage {
                    channel: channel as u8,
                    message_type: ChannelMessageType::PolyphonicKeyPressure {
                        key: bytes[1],
                        pressure: bytes[2],
                    },
                },
            )
        } else if status == 0xB && bytes.len() == 3 && data_byte(bytes[1]) && data_byte(
            bytes[2],
        ) {
            Option::Some(
                ChannelMessage {
                    channel: channel as u8,
                    message_type: ChannelMessageType::ControlChange {
                        controller: bytes[1],
                        value: bytes[2],
                    },
                },
            )
        } else if status == 0xC && bytes.len() == 2 && data_byte(bytes[1]) {
            Option::Some(
                ChannelMessage {
                    channel: channel as u8,
                    message_type: ChannelMessageType::ProgramChange { program: bytes[1] },
                },
            )
        } else if status == 0xD && bytes.len() == 2 && data_byte(bytes[1]) {
            Option::Some(
                ChannelMessage {
                    channel: channel as u8,
                    message_type: ChannelMessageType::ChannelPressure { pressure: bytes[1] },
                },
            )
        } else if status == 0xE && bytes.len() == 3 && data_byte(bytes[1]) && data_byte(
            bytes[2],
        ) {
            Option::Some(
                ChannelMessage {
                    channel: channel as u8,
                    message_type: ChannelMessageType::PitchBendChange {
                        value: (bytes[1] + bytes[2] * 128 - 8192) as i16,
                    },
                },
            )
        } else {
            Option::None
        }
    }
}

/// A message for the MIDI-out device: either a tuning adjustment for a
/// channel or an ordinary channel message.
#[derive(Clone, Copy, PartialEq, Eq, Structural, Debug)]
pub enum MidiOutMessage {
    /// Retunes a channel by the given deviation from 12-edo.
    Tune { channel: u8, detune: crate::pitch::Ratio },
    /// A channel voice message.
    Channel { channel: u8, message: ChannelMessageType },
}

/// A note the MIDI-out device is currently playing.
#[derive(Clone, Copy, PartialEq, Eq, Structural, Debug)]
pub struct MidiOutNote {
    pub id: crate::synth::SourceId,
    pub channel: u8,
    pub key: u8,
}

/// The decision core of the MIDI-out backend: it chooses, for each note,
/// a channel whose tuning offset approximates the target pitch, retunes
/// free channels as needed, and falls back to the nearest equal-tempered
/// note when all channels hold other offsets.  The queued messages are
/// performed by the device driver outside this crate.
pub struct MidiOutBackend {
    pub device: String,
    pub tuning_method: TuningMethod,
    pub curr_program: usize,
    pub channel_detunes: Vec<Option<i64>>,
    pub notes: Vec<MidiOutNote>,
    pub out: Vec<MidiOutMessage>,
    pub tuned: bool,
}

/// Whether the device currently plays a note for the source.
pub open spec fn plays(notes: Seq<MidiOutNote>, id: crate::synth::SourceId) -> bool {
    exists|i: int| 0 <= i < notes.len() && notes[i].id == id
}

/// The stored logarithm of concert A4 (440 Hz).
pub open spec fn a4_log() -> int {
    crate::pitch::log2_q52_of(440)
}

/// The stored logarithm of one equal-tempered semitone.
pub open spec fn semitone_log() -> int {
    crate::pitch::divide_spec(crate::pitch::OCTAVE_RAW as int, 12)
}

/// The semitone distance from A4, rounded to the nearest integer with
/// ties away from zero.
pub open spec fn midi_steps(pitch_raw: int) -> int {
    let from_a4 = crate::pitch::deviation_spec(pitch_raw, a4_log());
    let steps_fx = crate::fx::fx_div(from_a4, semitone_log());
    if steps_fx >= 0 {
        (steps_fx + 0x8000_0000) / 0x1_0000_0000
    } else {
        -(((-steps_fx) + 0x8000_0000) / 0x1_0000_0000)
    }
}

/// The nearest equal-tempered MIDI key, clamped to the key range.
pub open spec fn midi_key_of(pitch_raw: int) -> int {
    let steps = midi_steps(pitch_raw);
    if steps < -69 {
        0
    } else if steps > 58 {
        127
    } else {
        steps + 69
    }
}

/// The residual detune: the deviation of the pitch from its nearest
/// equal-tempered key under concert tuning.
pub open spec fn midi_detune_of(pitch_raw: int) -> int {
    let et = crate::pitch::stretch_spec(
        a4_log(),
        crate::pitch::repeat_spec(semitone_log(), midi_key_of(pitch_raw) - 69),
    );
    crate::pitch::deviation_spec(pitch_raw, et)
}

/// Whether a channel's stored detune is negligibly far from the wanted
/// one.
pub open spec fn near_detune(d: int, det: int) -> bool {
    -crate::pitch::NEGLIGIBLE_RAW < crate::pitch::deviation_spec(d, det)
        < crate::pitch::NEGLIGIBLE_RAW
}

/// Whether some channel already carries a matching detune.
pub open spec fn has_matching(detunes: Seq<Option<i64>>, det: int) -> bool {
    exists|i: int|
        0 <= i < detunes.len() && ((#[trigger] detunes[i]) matches Option::Some(d)
            && near_detune(d as int, det))
}

/// Whether some channel is free (untuned).
pub open spec fn has_free(detunes: Seq<Option<i64>>) -> bool {
    exists|i: int| 0 <= i < detunes.len() && (#[trigger] detunes[i]) is None
}

/// The note-off messages that stopping a source queues, in note order.
pub open spec fn note_offs(
    notes: Seq<MidiOutNote>,
    id: crate::synth::SourceId,
    velocity: u8,
) -> Seq<MidiOutMessage>
    decreases notes.len(),
{
    if notes.len() == 0 {
        Seq::empty()
    } else {
        let rest = note_offs(notes.skip(1), id, velocity);
        if notes[0].id == id {
            seq![
                MidiOutMessage::Channel {
                    channel: notes[0].channel,
                    message: ChannelMessageType::NoteOff { key: notes[0].key, velocity },
                },
            ] + rest
        } else {
            rest
        }
    }
}

/// The notes that survive stopping a source, in order.
pub open spec fn kept_notes(notes: Seq<MidiOutNote>, id: crate::synth::SourceId) -> Seq<
    MidiOutNote,
>
    decreases notes.len(),
{
    if notes.len() == 0 {
        Seq::empty()
    } else {
        let rest = kept_notes(notes.skip(1), id);
        if notes[0].id == id {
            rest
        } else {
            seq![notes[0]] + rest
        }
    }
}

/// Whether some kept note occupies the channel.
pub open spec fn channel_used(notes: Seq<MidiOutNote>, c: int) -> bool {
    exists|k: int| 0 <= k < notes.len() && (#[trigger] notes[k]).channel == c
}

/// One started note on channel `ch`: the note is recorded under the
/// nearest key, and the queued messages and channel table follow the
/// selection rule (reuse a matching channel; else retune a free one; else
/// play untuned on channel 0 and clear the tuned flag).
pub open spec fn started_on_channel(
    pre: MidiOutBackend,
    post: MidiOutBackend,
    id: crate::synth::SourceId,
    pitch_raw: int,
    velocity: u8,
    ch: u8,
) -> bool {
    let det = midi_detune_of(pitch_raw);
    let key = midi_key_of(pitch_raw) as u8;
    let note_on = MidiOutMessage::Channel {
        channel: ch,
        message: ChannelMessageType::NoteOn { key, velocity },
    };
    &&& post.notes@ == pre.notes@.push(MidiOutNote { id, channel: ch, key })
    &&& if has_matching(pre.channel_detunes@, det) {
        &&& ch < 16
        &&& (pre.channel_detunes@[ch as int] matches Option::Some(d) && near_detune(
            d as int,
            det,
        ))
        &&& post.out@ == pre.out@.push(note_on)
        &&& post.channel_detunes == pre.channel_detunes
        &&& post.tuned == pre.tuned
    } else if has_free(pre.channel_detunes@) {
        &&& ch < 16
        &&& pre.channel_detunes@[ch as int] is None
        &&& post.channel_detunes@ == pre.channel_detunes@.update(
            ch as int,
            Option::Some(det as i64),
        )
        &&& post.out@ == pre.out@.push(
            MidiOutMessage::Tune { channel: ch, detune: crate::pitch::Ratio { raw: det as i64 } },
        ).push(note_on)
        &&& post.tuned == pre.tuned
    } else {
        &&& ch == 0
        &&& post.out@ == pre.out@.push(note_on)
        &&& post.channel_detunes == pre.channel_detunes
        &&& !post.tuned
    }
}

/// `note_offs` and `kept_notes` over one appended note.
proof fn lemma_note_split_snoc(
    done: Seq<MidiOutNote>,
    n: MidiOutNote,
    id: crate::synth::SourceId,
    velocity: u8,
)
    ensures
        note_offs(done.push(n), id, velocity) == note_offs(done, id, velocity) + (if n.id == id {
            seq![
                MidiOutMessage::Channel {
                    channel: n.channel,
                    message: ChannelMessageType::NoteOff { key: n.key, velocity },
                },
            ]
        } else {
            Seq::<MidiOutMessage>::empty()
        }),
        kept_notes(done.push(n), id) == kept_notes(done, id) + (if n.id == id {
            Seq::<MidiOutNote>::empty()
        } else {
            seq![n]
        }),
    decreases done.len(),
{
    let snoc = done.push(n);
    if done.len() == 0 {
        assert(snoc.len() == 1);
        assert(snoc[0] == n);
        assert(snoc.skip(1) =~= Seq::<MidiOutNote>::empty());
        assert(done =~= Seq::<MidiOutNote>::empty());
        assert(note_offs(snoc.skip(1), id, velocity) == Seq::<MidiOutMessage>::empty());
        assert(kept_notes(snoc.skip(1), id) == Seq::<MidiOutNote>::empty());
        assert(note_offs(done, id, velocity) == Seq::<MidiOutMessage>::empty());
        assert(kept_notes(done, id) == Seq::<MidiOutNote>::empty());
        if n.id == id {
            assert(note_offs(snoc, id, velocity) =~= note_offs(done, id, velocity) + seq![
                MidiOutMessage::Channel {
                    channel: n.channel,
                    message: ChannelMessageType::NoteOff { key: n.key, velocity },
                },
            ]);
            assert(kept_notes(snoc, id) =~= kept_notes(done, id));
        } else {
            assert(note_offs(snoc, id, velocity) =~= note_offs(done, id, velocity));
            assert(kept_notes(snoc, id) =~= kept_notes(done, id) + seq![n]);
        }
    } else {
        assert(snoc[0] == done[0]);
        assert(snoc.skip(1) =~= done.skip(1).push(n));
        lemma_note_split_snoc(done.skip(1), n, id, velocity);
        if done[0].id == id {
            assert(note_offs(snoc, id, velocity) =~= note_offs(done, id, velocity) + (if n.id
                == id {
                seq![
                    MidiOutMessage::Channel {
                        channel: n.channel,
                        message: ChannelMessageType::NoteOff { key: n.key, velocity },
                    },
                ]
            } else {
                Seq::<MidiOutMessage>::empty()
            }));
            assert(kept_notes(snoc, id) =~= kept_notes(done, id) + (if n.id == id {
                Seq::<MidiOutNote>::empty()
            } else {
                seq![n]
            }));
        } else {
            assert(note_offs(snoc, id, velocity) =~= note_offs(done, id, velocity) + (if n.id
                == id {
                seq![
                    MidiOutMessage::Channel {
                        channel: n.channel,
                        message: ChannelMessageType::NoteOff { key: n.key, velocity },
                    },
                ]
            } else {
                Seq::<MidiOutMessage>::empty()
            }));
            assert(kept_notes(snoc, id) =~= kept_notes(done, id) + (if n.id == id {
                Seq::<MidiOutNote>::empty()
            } else {
                seq![n]
            }));
        }
    }
}

/// Well-formedness: 16 channels.
pub open spec fn midi_out_wf(b: MidiOutBackend) -> bool {
    b.channel_detunes@.len() == 16
}

impl MidiOutBackend {
    /// A backend for the given device with all channels untuned.
    pub fn new(device: String, tuning_method: TuningMethod) -> (r: MidiOutBackend)
        ensures
            midi_out_wf(r),
            r.notes@.len() == 0,
            r.out@.len() == 0,
            r.tuned,
    {
        let mut channel_detunes: Vec<Option<i64>> = Vec::new();
        let mut i: usize = 0;
        while i < 16
            invariant
                i <= 16,
                channel_detunes@.len() == i,
            decreases 16 - i,
        {
            channel_detunes.push(Option::None);
            i = i + 1;
        }
        MidiOutBackend {
            device,
            tuning_method,
            curr_program: 0,
            channel_detunes,
            notes: Vec::new(),
            out: Vec::new(),
            tuned: true,
        }
    }

    /// The status record of the device.
    pub fn send_status(&self) -> (r: MidiInfo)
        ensures
            r.device@ == self.device@,
            r.program_number == self.curr_program,
            r.tuning_method == (if self.tuned {
                Option::Some(self.tuning_method)
            } else {
                Option::<TuningMethod>::None
            }),
    {
        MidiInfo {
            device: self.device.as_str().to_owned(),
            tuning_method: if self.tuned {
                Some(self.tuning_method)
            } else {
                None
            },
            program_number: self.curr_program,
        }
    }

    /// Starts a note: the pitch is split into the nearest equal-tempered
    /// key and a residual detune, and a channel carrying (or retuned to)
    /// that detune plays the note.  With every channel committed to a
    /// different offset the note sounds untuned on channel 0 and the
    /// status reports it.
    pub fn start(&mut self, id: crate::synth::SourceId, pitch: crate::pitch::Pitch, velocity: u8)
        requires
            midi_out_wf(*old(self)),
        ensures
            midi_out_wf(*final(self)),
            plays(final(self).notes@, id),
            exists|ch: u8| #[trigger] started_on_channel(
                *old(self),
                *final(self),
                id,
                pitch.raw as int,
                velocity,
                ch,
            ),
    {
        let (key, detune) = nearest_midi_key(pitch);
        let ghost det = midi_detune_of(pitch.raw as int);
        let mut channel: Option<u8> = Option::None;
        let mut i: usize = 0;
        // Prefer a channel already at this offset.
        while i < 16
            invariant
                i <= 16,
                midi_out_wf(*self),
                self == old(self),
                detune.raw == det,
                channel matches Option::Some(c) ==> c < 16 && (
                self.channel_detunes@[c as int] matches Option::Some(d) && near_detune(
                    d as int,
                    det,
                )),
                channel is None ==> forall|k: int|
                    0 <= k < i ==> !((#[trigger] self.channel_detunes@[k]) matches Option::Some(d)
                        && near_detune(d as int, det)),
            decreases 16 - i,
        {
            if let Some(d) = self.channel_detunes[i] {
                if (crate::pitch::Ratio { raw: d }).deviation_from(detune).is_negligible() {
                    channel = Option::Some(i as u8);
                    i = 16;
                } else {
                    i = i + 1;
                }
            } else {
                i = i + 1;
            }
        }
        proof {
            if channel is None {
                assert(!has_matching(self.channel_detunes@, det));
            } else {
                assert(has_matching(self.channel_detunes@, det));
            }
        }
        let ghost matched = channel is Some;
        if channel.is_none() {
            // Otherwise retune a free channel.
            let mut j: usize = 0;
            while j < 16
                invariant
                    j <= 16,
                    midi_out_wf(*self),
                    self.notes == old(self).notes,
                    detune.raw == det,
                    !has_matching(old(self).channel_detunes@, det),
                    channel is None ==> *self == *old(self) && forall|k: int|
                        0 <= k < j ==> !((#[trigger] self.channel_detunes@[k]) is None),
                    channel matches Option::Some(c) ==> j == 16 && c < 16 && old(
                        self,
                    ).channel_detunes@[c as int] is None && self.channel_detunes@ == old(
                        self,
                    ).channel_detunes@.update(c as int, Option::Some(det as i64)) && self.out@
                        == old(self).out@.push(
                        MidiOutMessage::Tune { channel: c, detune: crate::pitch::Ratio { raw: det as i64 } },
                    ) && self.tuned == old(self).tuned && self.device == old(self).device
                        && self.tuning_method == old(self).tuning_method && self.curr_program
                        == old(self).curr_program,
                decreases 16 - j,
            {
                if self.channel_detunes[j].is_none() {
                    proof {
                        assert(old(self).channel_detunes@[j as int] is None);
                    }
                    self.channel_detunes.set(j, Option::Some(detune.raw));
                    self.out.push(MidiOutMessage::Tune { channel: j as u8, detune });
                    channel = Option::Some(j as u8);
                    proof {
                        assert(detune == (crate::pitch::Ratio { raw: det as i64 }));
                        assert(self.channel_detunes@ == old(self).channel_detunes@.update(
                            j as int,
                            Option::Some(det as i64),
                        ));
                        assert(self.out@ == old(self).out@.push(
                            MidiOutMessage::Tune {
                                channel: j as u8,
                                detune: crate::pitch::Ratio { raw: det as i64 },
                            },
                        ));
                    }
                    j = 16;
                } else {
                    j = j + 1;
                }
            }
            proof {
                if channel is None {
                    assert(!has_free(old(self).channel_detunes@));
                } else {
                    assert(has_free(old(self).channel_detunes@));
                }
            }
        }
        let ghost chosen_g = channel;
        let channel = match channel {
            Some(c) => c,
            None => {
                // Every channel is committed to another offset.
                self.tuned = false;
                0
            },
        };
        self.out.push(
            MidiOutMessage::Channel {
                channel,
                message: ChannelMessageType::NoteOn { key, velocity },
            },
        );
        self.notes.push(MidiOutNote { id, channel, key });
        proof {
            assert(self.notes@[self.notes@.len() - 1].id == id);
            if matched {
                assert(has_matching(old(self).channel_detunes@, det));
            } else if chosen_g is Some {
                assert(has_free(old(self).channel_detunes@));
            } else {
                assert(!has_matching(old(self).channel_detunes@, det));
                assert(!has_free(old(self).channel_detunes@));
            }
            assert(started_on_channel(
                *old(self),
                *self,
                id,
                pitch.raw as int,
                velocity,
                channel,
            ));
        }
    }

    /// Stops every note of the source, freeing channels that no other note
    /// uses.
    pub fn stop(&mut self, id: crate::synth::SourceId, velocity: u8)
        requires
            midi_out_wf(*old(self)),
        ensures
            midi_out_wf(*final(self)),
            !plays(final(self).notes@, id),
            final(self).notes@ == kept_notes(old(self).notes@, id),
            final(self).out@ == old(self).out@ + note_offs(old(self).notes@, id, velocity),
            forall|c: int|
                0 <= c < 16 ==> #[trigger] final(self).channel_detunes@[c] == (if channel_used(
                    kept_notes(old(self).notes@, id),
                    c,
                ) {
                    old(self).channel_detunes@[c]
                } else {
                    Option::<i64>::None
                }),
            final(self).tuned == old(self).tuned,
    {
        let ghost orig_notes = self.notes@;
        let ghost mut done: Seq<MidiOutNote> = Seq::empty();
        proof {
            assert(orig_notes.skip(0) =~= orig_notes);
            assert(note_offs(done, id, velocity) =~= Seq::<MidiOutMessage>::empty());
            assert(kept_notes(done, id) =~= Seq::<MidiOutNote>::empty());
            assert(old(self).out@ + Seq::<MidiOutMessage>::empty() =~= old(self).out@);
            assert(Seq::<MidiOutNote>::empty() + Seq::<MidiOutNote>::empty() =~= Seq::<
                MidiOutNote,
            >::empty());
        }
        let mut remaining: Vec<MidiOutNote> = Vec::new();
        while self.notes.len() > 0
            invariant
                midi_out_wf(*self),
                !plays(remaining@, id),
                self.channel_detunes == old(self).channel_detunes,
                self.tuned == old(self).tuned,
                self.device == old(self).device,
                self.tuning_method == old(self).tuning_method,
                self.curr_program == old(self).curr_program,
                done + self.notes@ =~= orig_notes,
                remaining@ == kept_notes(done, id),
                self.out@ == old(self).out@ + note_offs(done, id, velocity),
            decreases self.notes@.len(),
        {
            let ghost pend0 = self.notes@;
            let note = self.notes.remove(0);
            proof {
                assert((done + pend0)[done.len() as int] == note);
                lemma_note_split_snoc(done, note, id, velocity);
                assert(done.push(note) + pend0.skip(1) =~= done + pend0);
            }
            if note.id == id {
                self.out.push(
                    MidiOutMessage::Channel {
                        channel: note.channel,
                        message: ChannelMessageType::NoteOff { key: note.key, velocity },
                    },
                );
                proof {
                    assert(self.out@ =~= old(self).out@ + note_offs(
                        done.push(note),
                        id,
                        velocity,
                    ));
                }
            } else {
                remaining.push(note);
                proof {
                    assert(remaining@ =~= kept_notes(done.push(note), id));
                }
            }
            proof {
                done = done.push(note);
            }
        }
        proof {
            assert(done =~= orig_notes);
        }
        // Free the channels no remaining note occupies.
        let ghost kept = kept_notes(orig_notes, id);
        let mut c: usize = 0;
        while c < 16
            invariant
                c <= 16,
                midi_out_wf(*self),
                self.notes@.len() == 0,
                !plays(remaining@, id),
                remaining@ == kept,
                self.out@ == old(self).out@ + note_offs(orig_notes, id, velocity),
                self.tuned == old(self).tuned,
                self.device == old(self).device,
                self.tuning_method == old(self).tuning_method,
                self.curr_program == old(self).curr_program,
                forall|d: int|
                    c <= d < 16 ==> #[trigger] self.channel_detunes@[d] == old(
                        self,
                    ).channel_detunes@[d],
                forall|d: int|
                    0 <= d < c ==> #[trigger] self.channel_detunes@[d] == (if channel_used(
                        kept,
                        d,
                    ) {
                        old(self).channel_detunes@[d]
                    } else {
                        Option::<i64>::None
                    }),
            decreases 16 - c,
        {
            let mut used = false;
            let mut k: usize = 0;
            let n = remaining.len();
            while k < n
                invariant
                    k <= n,
                    n == remaining@.len(),
                    remaining@ == kept,
                    used == exists|m: int|
                        0 <= m < k && (#[trigger] remaining@[m]).channel == c,
                decreases n - k,
            {
                if remaining[k].channel as usize == c {
                    used = true;
                }
                k = k + 1;
            }
            proof {
                assert(used == channel_used(kept, c as int));
            }
            if !used {
                self.channel_detunes.set(c, Option::None);
            }
            c = c + 1;
        }
        self.notes = remaining;
    }

    /// Queues a message that addresses the whole instrument on channel 0.
    pub fn send_monophonic_message(&mut self, message: ChannelMessageType)
        requires
            midi_out_wf(*old(self)),
        ensures
            midi_out_wf(*final(self)),
            final(self).out@ == old(self).out@.push(
                MidiOutMessage::Channel { channel: 0, message },
            ),
    {
        self.out.push(MidiOutMessage::Channel { channel: 0, message });
    }

    /// Selects a program, clamped to the MIDI range.
    pub fn program_change(&mut self, number: usize)
        requires
            midi_out_wf(*old(self)),
        ensures
            midi_out_wf(*final(self)),
            final(self).curr_program == (if number < 127 {
                number as int
            } else {
                127int
            }),
            final(self).out@ == old(self).out@.push(
                MidiOutMessage::Channel {
                    channel: 0,
                    message: ChannelMessageType::ProgramChange {
                        program: (if number < 127 {
                            number as int
                        } else {
                            127int
                        }) as u8,
                    },
                },
            ),
            final(self).notes == old(self).notes,
            final(self).channel_detunes == old(self).channel_detunes,
            final(self).tuned == old(self).tuned,
    {
        self.curr_program = if number < 127 {
            number
        } else {
            127
        };
        let program = self.curr_program as u8;
        self.out.push(
            MidiOutMessage::Channel {
                channel: 0,
                message: ChannelMessageType::ProgramChange { program },
            },
        );
    }

    /// Takes the queued device messages, leaving the queue empty.
    pub fn take_messages(&mut self) -> (r: Vec<MidiOutMessage>)
        requires
            midi_out_wf(*old(self)),
        ensures
            midi_out_wf(*final(self)),
            r@ == old(self).out@,
            final(self).out@.len() == 0,
    {
        let mut out: Vec<MidiOutMessage> = Vec::new();
        let ghost orig = self.out@;
        while self.out.len() > 0
            invariant
                midi_out_wf(*self),
                self.notes == old(self).notes,
                self.channel_detunes == old(self).channel_detunes,
                out@ + self.out@ =~= orig,
            decreases self.out@.len(),
        {
            let m = self.out.remove(0);
            out.push(m);
        }
        out
    }
}

/// The nearest equal-tempered MIDI key of a pitch, and the residual
/// detune: the deviation of the pitch from that key under concert tuning.
pub fn nearest_midi_key(pitch: crate::pitch::Pitch) -> (r: (u8, crate::pitch::Ratio))
    ensures
        r.0 == midi_key_of(pitch.raw as int),
        r.1.raw == midi_detune_of(pitch.raw as int),
{
    let a4 = crate::pitch::Pitch::from_hz_u32(440);
    let semitone = crate::pitch::Ratio::octave().divided_into_equal_steps(12);
    let from_a4 = crate::pitch::Ratio::between_pitches(a4, pitch);
    // Round the semitone count to the nearest integer.
    let steps_fx = from_a4.num_equal_steps_of_size(semitone);
    let steps: i64 = if steps_fx.raw >= 0 {
        (steps_fx.raw + 0x8000_0000) / 0x1_0000_0000
    } else {
        -((-(steps_fx.raw as i128) as u128 as i128 + 0x8000_0000) as i64 / 0x1_0000_0000)
    };
    let key: u8 = if steps < -69 {
        0
    } else if steps > 58 {
        127
    } else {
        (steps + 69) as u8
    };
    let clamped_steps: i32 = (key as i32) - 69;
    let et_pitch = a4.mul_ratio(semitone.repeated(clamped_steps));
    let detune = crate::pitch::Ratio::between_pitches(et_pitch, pitch);
    (key, detune)
}

impl ChannelMessage {
    /// Parses a raw MIDI byte string into a channel message; `None` for
    /// system messages, truncated messages or stray data bytes.
    pub fn from_raw_message(bytes: &[u8]) -> (r: Option<ChannelMessage>)
        ensures
            r == parsed_message(bytes@),
    {
        let n = bytes.len();
        if n == 0 {
            return None;
        }
        let status = bytes[0] / 16;
        let channel = bytes[0] % 16;
        if status == 0x8 && n == 3 && bytes[1] < 0x80 && bytes[2] < 0x80 {
            Some(
                ChannelMessage {
                    channel,
                    message_type: ChannelMessageType::NoteOff {
                        key: bytes[1],
                        velocity: bytes[2],
                    },
                },
            )
        } else if status == 0x9 && n == 3 && bytes[1] < 0x80 && bytes[2] < 0x80 {
            Some(
                ChannelMessage {
                    channel,
                    message_type: ChannelMessageType::NoteOn {
                        key: bytes[1],
                        velocity: bytes[2],
                    },
                },
            )
        } else if status == 0xA && n == 3 && bytes[1] < 0x80 && bytes[2] < 0x80 {
            Some(
                ChannelMessage {
                    channel,
                    message_type: ChannelMessageType::PolyphonicKeyPressure {
                        key: bytes[1],
                        pressure: bytes[2],
                    },
                },
            )
        } else if status == 0xB && n == 3 && bytes[1] < 0x80 && bytes[2] < 0x80 {
            Some(
                ChannelMessage {
                    channel,
                    message_type: ChannelMessageType::ControlChange {
                        controller: bytes[1],
                        value: bytes[2],
                    },
                },
            )
        } else if status == 0xC && n == 2 && bytes[1] < 0x80 {
            Some(
                ChannelMessage {
                    channel,
                    message_type: ChannelMessageType::ProgramChange { program: bytes[1] },
                },
            )
        } else if status == 0xD && n == 2 && bytes[1] < 0x80 {
            Some(
                ChannelMessage {
                    channel,
                    message_type: ChannelMessageType::ChannelPressure { pressure: bytes[1] },
                },
            )
        } else if status == 0xE && n == 3 && bytes[1] < 0x80 && bytes[2] < 0x80 {
            let value: i16 = bytes[1] as i16 + bytes[2] as i16 * 128 - 8192;
            Some(
                ChannelMessage {
                    channel,
                    message_type: ChannelMessageType::PitchBendChange { value },
                },
            )
        } else {
            None
        }
    }

    /// The channel the message addresses.
    pub fn channel(&self) -> (r: u8)
        ensures
            r == self.channel,
    {
        self.channel
    }

    /// The payload of the message.
    pub fn message_type(&self) -> (r: ChannelMessageType)
        ensures
            r == self.message_type,
    {
        self.message_type
    }
}

} // verus!
