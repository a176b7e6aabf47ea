//! The dispatch layer: performer events become lifecycle calls on the
//! active backend, with the scale and keyboard mapping turning degrees
//! into pitches.
//!
//! Each source follows the state machine idle → sounding on a press,
//! sounding → sounding on moves, sounding → idle on a release; a second
//! press for a sounding source behaves as a release followed by a press.

use vstd::prelude::*;

use crate::creator::ConfigError;
use crate::fx::{clip_i64, div_trunc, Fx, FX_ONE_RAW};
use crate::midi::{ChannelMessage, ChannelMessageType};
use crate::pitch::Pitch;
use crate::scala::{pitch_of, scl_wf, KbmRoot, Scl};
use crate::scala::pitch_of_spec;
use crate::synth::{backend_wf, norm7, start_ok, Lifecycle, Message, SourceId, WaveformBackend};

verus! {

/// Where a performer event happened: at an absolute pitch (mouse, touch)
/// or at a scale degree (keyboard, MIDI).
#[derive(Clone, Copy, PartialEq, Eq, Structural, Debug)]
pub enum Location {
    Pitch(Pitch),
    Degree(i32),
}

/// A performer event.
#[derive(Clone, Copy, PartialEq, Eq, Structural, Debug)]
pub enum Event {
    Pressed(SourceId, Location, u8),
    Moved(SourceId, Location),
    Released(SourceId, u8),
}

/// The dispatcher: the active tuning, the waveform backend and the set of
/// currently sounding sources.
pub struct PianoEngine {
    pub scl: Scl,
    pub kbm: KbmRoot,
    pub backend: WaveformBackend,
    pub sounding: Vec<SourceId>,
}

/// Whether a source is currently sounding.
pub open spec fn is_sounding(s: Seq<SourceId>, id: SourceId) -> bool {
    exists|i: int| 0 <= i < s.len() && s[i] == id
}

/// Sounding sources are listed once.
pub open spec fn sounding_unique(s: Seq<SourceId>) -> bool {
    forall|i: int, j: int| 0 <= i < j < s.len() ==> (#[trigger] s[i]) != (#[trigger] s[j])
}

/// Whether the keyboard mapping's offsets are within the guarded range
/// the scale arithmetic accepts.
pub open spec fn kbm_sane(k: KbmRoot) -> bool {
    -0x4_0000 <= k.ref_key <= 0x4_0000 && -0x4_0000 <= k.root_offset <= 0x4_0000
}

/// The degree the dispatcher resolves: degrees are clamped to the guarded
/// range, and an out-of-range keyboard mapping falls back to degree 0.
pub open spec fn resolved_degree(e: PianoEngine, d: int) -> int {
    if !kbm_sane(e.kbm) {
        0
    } else if d > 0x8_0000 {
        0x8_0000
    } else if d < -0x8_0000 {
        -0x8_0000
    } else {
        d
    }
}

/// The keyboard mapping the dispatcher resolves against: an out-of-range
/// mapping falls back to the reference pitch at key 0.
pub open spec fn resolved_kbm(e: PianoEngine) -> KbmRoot {
    if kbm_sane(e.kbm) {
        e.kbm
    } else {
        KbmRoot { ref_key: 0, ref_pitch: e.kbm.ref_pitch, root_offset: 0 }
    }
}

/// The pitch of an event location under the engine's tuning.
pub open spec fn resolved_pitch(e: PianoEngine, loc: Location) -> Pitch {
    match loc {
        Location::Pitch(p) => p,
        Location::Degree(d) => Pitch {
            raw: pitch_of_spec(e.scl, resolved_kbm(e), resolved_degree(e, d as int)) as i64,
        },
    }
}

/// Well-formedness of the dispatcher.
pub open spec fn engine_wf(e: PianoEngine) -> bool {
    &&& scl_wf(e.scl)
    &&& backend_wf(e.backend)
    &&& sounding_unique(e.sounding@)
}

impl PianoEngine {
    /// A dispatcher over the given tuning and backend.
    pub fn new(scl: Scl, kbm: KbmRoot, backend: WaveformBackend) -> (r: PianoEngine)
        requires
            scl_wf(scl),
            backend_wf(backend),
        ensures
            engine_wf(r),
            r.sounding@.len() == 0,
    {
        PianoEngine { scl, kbm, backend, sounding: Vec::new() }
    }

    /// The pitch of an event location.  Degrees are clamped to the range
    /// the scale arithmetic accepts, and an out-of-range keyboard mapping
    /// falls back to the reference pitch at key 0.
    fn resolve(&self, loc: Location) -> (r: (i32, Pitch))
        requires
            engine_wf(*self),
        ensures
            loc matches Location::Degree(d) ==> r.0 == resolved_degree(*self, d as int),
            loc matches Location::Pitch(p) ==> r.0 == 0 && r.1 == p,
            r.1 == resolved_pitch(*self, loc),
    {
        match loc {
            Location::Pitch(p) => (0, p),
            Location::Degree(d) => {
                let clamped = if d > 0x8_0000 {
                    0x8_0000
                } else if d < -0x8_0000 {
                    -0x8_0000
                } else {
                    d
                };
                let clamped = if self.kbm.ref_key > 0x4_0000 || self.kbm.ref_key < -0x4_0000
                    || self.kbm.root_offset > 0x4_0000 || self.kbm.root_offset < -0x4_0000 {
                    0
                } else {
                    clamped
                };
                let key = if self.kbm.ref_key > 0x4_0000 || self.kbm.ref_key < -0x4_0000
                    || self.kbm.root_offset > 0x4_0000 || self.kbm.root_offset < -0x4_0000 {
                    KbmRoot { ref_key: 0, ref_pitch: self.kbm.ref_pitch, root_offset: 0 }
                } else {
                    self.kbm
                };
                (clamped, pitch_of(&self.scl, &key, clamped))
            },
        }
    }

    /// Handles one performer event.
    ///
    /// A release leaves the source idle: afterwards it is not in the
    /// sounding set, which together with the synthesizer's stop guarantee
    /// means no stable voice remains for it.
    pub fn handle_event(&mut self, event: Event) -> (r: Result<(), ConfigError>)
        requires
            engine_wf(*old(self)),
        ensures
            engine_wf(*final(self)),
            final(self).scl == old(self).scl,
            final(self).kbm == old(self).kbm,
            event matches Event::Released(id, _) ==> !is_sounding(final(self).sounding@, id),
            event matches Event::Pressed(id, _, _) ==> (r is Ok ==> is_sounding(
                final(self).sounding@,
                id,
            )),
            event matches Event::Pressed(id, loc, velocity) ==> {
                &&& (r is Ok <==> start_ok(old(self).backend))
                &&& final(self).backend.messages@.len() == old(self).backend.messages@.len() + (
                if is_sounding(old(self).sounding@, id) {
                    1int
                } else {
                    0int
                }) + (if r is Ok {
                    1int
                } else {
                    0int
                })
                &&& final(self).backend.messages@.take(old(self).backend.messages@.len() as int)
                    == old(self).backend.messages@
                &&& (is_sounding(old(self).sounding@, id) ==> final(self).backend.messages@[old(
                    self,
                ).backend.messages@.len() as int] == (Message::Lifecycle {
                    id,
                    action: Lifecycle::Stop,
                }))
                &&& r is Ok ==> (final(self).backend.messages@.last() matches Message::Lifecycle {
                    id: qid,
                    action: Lifecycle::Start { waveform: w },
                } && qid == id && w.properties.pitch == resolved_pitch(*old(self), loc)
                    && w.properties.velocity == norm7(velocity))
            },
            event matches Event::Moved(id, loc) ==> {
                &&& r is Ok
                &&& final(self).sounding == old(self).sounding
                &&& (is_sounding(old(self).sounding@, id) ==> final(self).backend.messages@ == old(
                    self,
                ).backend.messages@.push(
                    Message::Lifecycle {
                        id,
                        action: Lifecycle::UpdatePitch {
                            pitch: resolved_pitch(*old(self), loc),
                        },
                    },
                ))
                &&& (!is_sounding(old(self).sounding@, id) ==> *final(self) == *old(self))
            },
            event matches Event::Released(id, velocity) ==> {
                &&& r is Ok
                &&& (is_sounding(old(self).sounding@, id) ==> final(self).backend.messages@ == old(
                    self,
                ).backend.messages@.push(Message::Lifecycle { id, action: Lifecycle::Stop }))
                &&& (!is_sounding(old(self).sounding@, id) ==> *final(self) == *old(self))
            },
    {
        match event {
            Event::Pressed(id, loc, velocity) => {
                let ghost pre = *self;
                let was = self.remove_sounding(id);
                if was {
                    self.backend.stop(id, 100);
                }
                let ghost mid = *self;
                let (degree, pitch) = self.resolve(loc);
                proof {
                    assert(pitch == resolved_pitch(pre, loc));
                    assert(start_ok(mid.backend) == start_ok(pre.backend));
                    if was {
                        assert(mid.backend.messages@ == pre.backend.messages@.push(
                            Message::Lifecycle { id, action: Lifecycle::Stop },
                        ));
                    }
                }
                let res = self.backend.start(id, degree, pitch, velocity);
                proof {
                    let n = pre.backend.messages@.len() as int;
                    if res is Ok {
                        assert(self.backend.messages@.take(mid.backend.messages@.len() as int)
                            == mid.backend.messages@);
                        assert(forall|i: int|
                            0 <= i < mid.backend.messages@.len()
                                ==> (#[trigger] self.backend.messages@[i])
                                == mid.backend.messages@[i]) by {
                            assert(forall|i: int|
                                0 <= i < mid.backend.messages@.len()
                                    ==> (#[trigger] self.backend.messages@[i])
                                    == self.backend.messages@.take(
                                    mid.backend.messages@.len() as int,
                                )[i]);
                        }
                        assert(self.backend.messages@.take(n) =~= pre.backend.messages@);
                        if was {
                            assert(self.backend.messages@[n] == (Message::Lifecycle {
                                id,
                                action: Lifecycle::Stop,
                            }));
                        }
                    } else {
                        assert(self.backend.messages@ == mid.backend.messages@);
                        assert(self.backend.messages@.take(n) =~= pre.backend.messages@);
                        if was {
                            assert(self.backend.messages@[n] == (Message::Lifecycle {
                                id,
                                action: Lifecycle::Stop,
                            }));
                        }
                    }
                }
                match res {
                    Ok(_) => {
                        self.push_sounding(id);
                        Ok(())
                    },
                    Err(e) => Err(e),
                }
            },
            Event::Moved(id, loc) => {
                if self.contains_sounding(id) {
                    let (degree, pitch) = self.resolve(loc);
                    self.backend.update_pitch(id, degree, pitch);
                }
                Ok(())
            },
            Event::Released(id, velocity) => {
                if self.remove_sounding(id) {
                    self.backend.stop(id, velocity);
                }
                Ok(())
            },
        }
    }

    /// Routes one incoming MIDI message.
    pub fn handle_midi_event(&mut self, message: ChannelMessageType, offset: i32) -> (r: Result<
        (),
        ConfigError,
    >)
        requires
            engine_wf(*old(self)),
            -0x10000 <= offset <= 0x10000,
        ensures
            engine_wf(*final(self)),
            message matches ChannelMessageType::ControlChange { controller, value } ==> r is Ok
                && final(self).backend.messages@ == old(self).backend.messages@
                + crate::synth::cc_messages(
                old(self).backend.cc_numbers,
                controller,
                norm7(value),
            ),
            message matches ChannelMessageType::ChannelPressure { pressure } ==> r is Ok
                && final(self).backend.messages@ == old(self).backend.messages@.push(
                crate::synth::ctrl_msg(crate::synth::SynthControl::ChannelPressure, norm7(pressure)),
            ),
            message matches ChannelMessageType::PitchBendChange { value } ==> r is Ok
                && final(self).backend.messages@ == old(self).backend.messages@.push(
                Message::PitchBend {
                    bend_level: Fx { raw: clip_i64(div_trunc(value * FX_ONE_RAW, 8192)) as i64 },
                },
            ),
            message matches ChannelMessageType::PolyphonicKeyPressure { key, pressure } ==> r is Ok
                && final(self).backend.messages@ == old(self).backend.messages@.push(
                Message::Lifecycle {
                    id: SourceId::Midi((key + offset) as i32),
                    action: Lifecycle::UpdatePressure { pressure: norm7(pressure) },
                },
            ),
            message matches ChannelMessageType::NoteOff { key, velocity } ==> r is Ok
                && !is_sounding(final(self).sounding@, SourceId::Midi((key + offset) as i32)),
            message matches ChannelMessageType::NoteOn { key, velocity } ==> (velocity > 0 ==> (
            r is Ok <==> start_ok(old(self).backend))),
    {
        match message {
            ChannelMessageType::NoteOn { key, velocity } => {
                if velocity == 0 {
                    let r = self.handle_event(
                        Event::Released(SourceId::Midi(key as i32 + offset), 100),
                    );
                    r
                } else {
                    self.handle_event(
                        Event::Pressed(
                            SourceId::Midi(key as i32 + offset),
                            Location::Degree(key as i32 + offset),
                            velocity,
                        ),
                    )
                }
            },
            ChannelMessageType::NoteOff { key, velocity } => {
                self.handle_event(Event::Released(SourceId::Midi(key as i32 + offset), velocity))
            },
            ChannelMessageType::PolyphonicKeyPressure { key, pressure } => {
                self.backend.update_pressure(SourceId::Midi(key as i32 + offset), pressure);
                Ok(())
            },
            ChannelMessageType::ControlChange { controller, value } => {
                self.backend.control_change(controller, value);
                Ok(())
            },
            ChannelMessageType::ProgramChange { program } => {
                self.backend.program_change(program as usize);
                Ok(())
            },
            ChannelMessageType::ChannelPressure { pressure } => {
                self.backend.channel_pressure(pressure);
                Ok(())
            },
            ChannelMessageType::PitchBendChange { value } => {
                self.backend.pitch_bend(value);
                Ok(())
            },
        }
    }

    /// Whether a source is sounding.
    fn contains_sounding(&self, id: SourceId) -> (r: bool)
        ensures
            r == is_sounding(self.sounding@, id),
    {
        let n = self.sounding.len();
        let mut i: usize = 0;
        while i < n
            invariant
                i <= n,
                n == self.sounding@.len(),
                forall|j: int| 0 <= j < i ==> (#[trigger] self.sounding@[j]) != id,
            decreases n - i,
        {
            if self.sounding[i] == id {
                return true;
            }
            i = i + 1;
        }
        false
    }

    /// Removes a source from the sounding set, reporting whether it was
    /// there.
    fn remove_sounding(&mut self, id: SourceId) -> (r: bool)
        requires
            engine_wf(*old(self)),
        ensures
            engine_wf(*final(self)),
            final(self).scl == old(self).scl,
            final(self).kbm == old(self).kbm,
            final(self).backend == old(self).backend,
            !is_sounding(final(self).sounding@, id),
            r == is_sounding(old(self).sounding@, id),
            !r ==> final(self).sounding == old(self).sounding,
    {
        let n = self.sounding.len();
        let mut i: usize = 0;
        while i < n
            invariant
                i <= n,
                n == self.sounding@.len(),
                engine_wf(*self),
                self == old(self),
                forall|j: int| 0 <= j < i ==> (#[trigger] self.sounding@[j]) != id,
            decreases n - i,
        {
            if self.sounding[i] == id {
                let ghost before = self.sounding@;
                let _ = self.sounding.remove(i);
                proof {
                    lemma_remove_id(before, i as int, id);
                }
                return true;
            }
            i = i + 1;
        }
        false
    }

    /// Adds a source to the sounding set.
    fn push_sounding(&mut self, id: SourceId)
        requires
            engine_wf(*old(self)),
            !is_sounding(old(self).sounding@, id),
        ensures
            engine_wf(*final(self)),
            final(self).scl == old(self).scl,
            final(self).kbm == old(self).kbm,
            final(self).backend == old(self).backend,
            is_sounding(final(self).sounding@, id),
    {
        self.sounding.push(id);
        proof {
            assert(self.sounding@[self.sounding@.len() - 1] == id);
        }
    }
}

/// Removing the only occurrence of an identity leaves a set without it,
/// and keeps the rest unique.
proof fn lemma_remove_id(s: Seq<SourceId>, i: int, id: SourceId)
    requires
        sounding_unique(s),
        0 <= i < s.len(),
        s[i] == id,
    ensures
        sounding_unique(s.remove(i)),
        !is_sounding(s.remove(i), id),
{
    let q = s.remove(i);
    assert forall|k: int| 0 <= k < q.len() implies (#[trigger] q[k]) != id by {
        if k < i {
            assert(q[k] == s[k]);
        } else {
            assert(q[k] == s[k + 1]);
        }
    }
    assert forall|a: int, b: int| 0 <= a < b < q.len() implies (#[trigger] q[a]) != (
    #[trigger] q[b]) by {
        let a2 = if a < i {
            a
        } else {
            a + 1
        };
        let b2 = if b < i {
            b
        } else {
            b + 1
        };
        assert(q[a] == s[a2]);
        assert(q[b] == s[b2]);
    }
}

} // verus!
