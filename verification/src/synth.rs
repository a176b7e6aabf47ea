//! The polyphonic waveform synthesizer: message intake, voice table,
//! rendering and the control storage read by the low-frequency sources.

use vstd::prelude::*;

use crate::buffer::Magnetron;
use crate::creator::{ConfigError, Creator};
use crate::envelope::{Envelope, NamedEnvelopeSpec};
use crate::fx::{clip_i64, fx_mul, Fx, FX_ONE_RAW};
use crate::pitch::{Pitch, Ratio};
use crate::waveform::{waveform_wf, EnvelopeType, Waveform, WaveformProperties, WaveformSpec};

verus! {

/// Raw Q32.32 threshold below which a voice is retired (about 10^-4).
pub const AMP_RETIRE_RAW: i64 = 429497;

/// A live control parameter of the synthesizer.
#[derive(Clone, Copy, PartialEq, Eq, Structural, Debug, Hash)]
pub enum SynthControl {
    Modulation,
    Breath,
    Foot,
    Expression,
    Damper,
    Sostenuto,
    SoftPedal,
    ChannelPressure,
}

/// The values of all live control parameters, in `[0, 1]`.  A parameter
/// that was never written reads as 0.
#[derive(Clone, Copy, PartialEq, Eq, Structural, Debug)]
pub struct ControlStorage {
    pub modulation: Fx,
    pub breath: Fx,
    pub foot: Fx,
    pub expression: Fx,
    pub damper: Fx,
    pub sostenuto: Fx,
    pub soft_pedal: Fx,
    pub channel_pressure: Fx,
}

/// The value a control reads from the storage.
pub open spec fn storage_read(s: ControlStorage, c: SynthControl) -> int {
    match c {
        SynthControl::Modulation => s.modulation.raw as int,
        SynthControl::Breath => s.breath.raw as int,
        SynthControl::Foot => s.foot.raw as int,
        SynthControl::Expression => s.expression.raw as int,
        SynthControl::Damper => s.damper.raw as int,
        SynthControl::Sostenuto => s.sostenuto.raw as int,
        SynthControl::SoftPedal => s.soft_pedal.raw as int,
        SynthControl::ChannelPressure => s.channel_pressure.raw as int,
    }
}

/// The storage after writing one control value.
pub open spec fn storage_written(s: ControlStorage, c: SynthControl, v: Fx) -> ControlStorage {
    match c {
        SynthControl::Modulation => ControlStorage { modulation: v, ..s },
        SynthControl::Breath => ControlStorage { breath: v, ..s },
        SynthControl::Foot => ControlStorage { foot: v, ..s },
        SynthControl::Expression => ControlStorage { expression: v, ..s },
        SynthControl::Damper => ControlStorage { damper: v, ..s },
        SynthControl::Sostenuto => ControlStorage { sostenuto: v, ..s },
        SynthControl::SoftPedal => ControlStorage { soft_pedal: v, ..s },
        SynthControl::ChannelPressure => ControlStorage { channel_pressure: v, ..s },
    }
}

impl ControlStorage {
    /// Storage with every parameter at 0.
    pub fn empty() -> (r: ControlStorage)
        ensures
            forall|c: SynthControl| #[trigger] storage_read(r, c) == 0,
    {
        let z = Fx { raw: 0 };
        ControlStorage {
            modulation: z,
            breath: z,
            foot: z,
            expression: z,
            damper: z,
            sostenuto: z,
            soft_pedal: z,
            channel_pressure: z,
        }
    }

    /// Reads one control value.
    pub fn read(&self, control: SynthControl) -> (r: Fx)
        ensures
            r.raw == storage_read(*self, control),
    {
        match control {
            SynthControl::Modulation => self.modulation,
            SynthControl::Breath => self.breath,
            SynthControl::Foot => self.foot,
            SynthControl::Expression => self.expression,
            SynthControl::Damper => self.damper,
            SynthControl::Sostenuto => self.sostenuto,
            SynthControl::SoftPedal => self.soft_pedal,
            SynthControl::ChannelPressure => self.channel_pressure,
        }
    }

    /// Writes one control value.
    pub fn write(&mut self, control: SynthControl, value: Fx)
        ensures
            *final(self) == storage_written(*old(self), control, value),
    {
        match control {
            SynthControl::Modulation => self.modulation = value,
            SynthControl::Breath => self.breath = value,
            SynthControl::Foot => self.foot = value,
            SynthControl::Expression => self.expression = value,
            SynthControl::Damper => self.damper = value,
            SynthControl::Sostenuto => self.sostenuto = value,
            SynthControl::SoftPedal => self.soft_pedal = value,
            SynthControl::ChannelPressure => self.channel_pressure = value,
        }
    }
}

/// MIDI controller numbers that feed the live parameters.
#[derive(Clone, Copy, PartialEq, Eq, Structural, Debug)]
pub struct ControlChangeNumbers {
    pub modulation: u8,
    pub breath: u8,
    pub foot: u8,
    pub expression: u8,
    pub damper: u8,
    pub sostenuto: u8,
    pub soft: u8,
}

/// Status information about the currently selected waveform.
pub struct WaveformInfo {
    pub waveform_number: usize,
    pub waveform_name: String,
    pub waveform_envelope: String,
    pub preferred_envelope: Option<EnvelopeType>,
}

/// A stable identity for one held key.
#[derive(Clone, Copy, PartialEq, Eq, Structural, Debug, Hash)]
pub enum SourceId {
    Mouse,
    Touchpad(u64),
    Keyboard(i8, i8),
    Midi(i32),
}

/// The key of a voice in the table: stable while the source holds the
/// key, fading with a fresh counter value after release.
#[derive(Clone, Copy, PartialEq, Eq, Structural, Debug)]
pub enum WaveformState {
    Stable(SourceId),
    Fading(u64),
}

/// A lifecycle action for one source.
pub enum Lifecycle {
    Start { waveform: Waveform },
    UpdatePitch { pitch: Pitch },
    UpdatePressure { pressure: Fx },
    Stop,
}

/// A message from the control side to the render side.
pub enum Message {
    Lifecycle { id: SourceId, action: Lifecycle },
    DamperPedal { pressure: Fx },
    PitchBend { bend_level: Fx },
    Control { control: SynthControl, value: Fx },
}

/// Whether the table holds an entry with the given key.
pub open spec fn has_key(p: Seq<(WaveformState, Waveform)>, k: WaveformState) -> bool {
    exists|i: int| 0 <= i < p.len() && p[i].0 == k
}

/// Keys are pairwise distinct.
pub open spec fn keys_unique(p: Seq<(WaveformState, Waveform)>) -> bool {
    forall|i: int, j: int| 0 <= i < j < p.len() ==> (#[trigger] p[i]).0 != (#[trigger] p[j]).0
}

/// The voice after a release under the given damper pressure.
pub open spec fn faded(w: Waveform, damper: Fx) -> Waveform {
    Waveform {
        envelope: Envelope { released: true, damper, ..w.envelope },
        properties: WaveformProperties { off_velocity_set: true, ..w.properties },
        ..w
    }
}

/// Whether a message's payload fits the state: a started voice must be
/// well formed against the pool.
pub open spec fn message_wf(m: Message, num_buffers: nat) -> bool {
    match m {
        Message::Lifecycle { action: Lifecycle::Start { waveform }, .. } => waveform_wf(
            waveform,
            num_buffers,
        ),
        _ => true,
    }
}

/// One fading counter value, advanced without wrapping (the table's
/// freshness invariant could not survive a wrap; in practice the counter
/// is never exhausted, and at its ceiling a stopped voice is dropped
/// instead of rekeyed).
pub open spec fn bumped(last_id: u64) -> int {
    if last_id < u64::MAX {
        last_id + 1
    } else {
        last_id as int
    }
}

/// The exact effect of one message on the render-side state.
///
/// A `Stop` (and a `Start` that replaces a held source, which behaves as a
/// stop followed by a start) rekeys the old voice under a fresh fading
/// identity with the current damper pressure, so afterwards no stable
/// voice exists for that source.  The damper pedal stores the cube of the
/// clamped pressure and refreshes the release curve of every fading
/// voice; a pitch bend raises the sensitivity ratio to the bend level.
/// Every case fixes the rest of the state unchanged.
pub open spec fn message_applied(pre: SynthState, post: SynthState, m: Message) -> bool {
    let p0 = pre.playing@;
    let p1 = post.playing@;
    &&& post.magnetron == pre.magnetron
    &&& post.pitch_wheel_sensivity == pre.pitch_wheel_sensivity
    &&& match m {
        Message::Lifecycle { id, action } => {
            let k = WaveformState::Stable(id);
            &&& post.storage == pre.storage
            &&& post.damper_pedal_pressure == pre.damper_pedal_pressure
            &&& post.pitch_bend == pre.pitch_bend
            &&& match action {
                Lifecycle::Start { waveform } => {
                    &&& (if has_key(p0, k) && pre.last_id < u64::MAX {
                        exists|j: int|
                            0 <= j < p0.len() && p0[j].0 == k && p1 =~= p0.remove(j).push(
                                (
                                    WaveformState::Fading(pre.last_id),
                                    faded(p0[j].1, pre.damper_pedal_pressure),
                                ),
                            ).push((k, waveform))
                    } else if has_key(p0, k) {
                        exists|j: int|
                            0 <= j < p0.len() && p0[j].0 == k && p1 =~= p0.remove(j).push(
                                (k, waveform),
                            )
                    } else {
                        p1 =~= p0.push((k, waveform))
                    })
                    &&& post.last_id == (if has_key(p0, k) {
                        bumped(pre.last_id)
                    } else {
                        pre.last_id as int
                    })
                },
                Lifecycle::UpdatePitch { pitch } => {
                    &&& (if has_key(p0, k) {
                        exists|j: int|
                            0 <= j < p0.len() && p0[j].0 == k && p1 =~= p0.update(
                                j,
                                (
                                    k,
                                    Waveform {
                                        properties: WaveformProperties {
                                            pitch,
                                            ..p0[j].1.properties
                                        },
                                        ..p0[j].1
                                    },
                                ),
                            )
                    } else {
                        p1 =~= p0
                    })
                    &&& post.last_id == pre.last_id
                },
                Lifecycle::UpdatePressure { pressure } => {
                    &&& (if has_key(p0, k) {
                        exists|j: int|
                            0 <= j < p0.len() && p0[j].0 == k && p1 =~= p0.update(
                                j,
                                (
                                    k,
                                    Waveform {
                                        properties: WaveformProperties {
                                            pressure,
                                            ..p0[j].1.properties
                                        },
                                        ..p0[j].1
                                    },
                                ),
                            )
                    } else {
                        p1 =~= p0
                    })
                    &&& post.last_id == pre.last_id
                },
                Lifecycle::Stop => {
                    &&& !has_key(p1, k)
                    &&& (if has_key(p0, k) && pre.last_id < u64::MAX {
                        exists|j: int|
                            0 <= j < p0.len() && p0[j].0 == k && p1 =~= p0.remove(j).push(
                                (
                                    WaveformState::Fading(pre.last_id),
                                    faded(p0[j].1, pre.damper_pedal_pressure),
                                ),
                            )
                    } else if has_key(p0, k) {
                        exists|j: int| 0 <= j < p0.len() && p0[j].0 == k && p1 =~= p0.remove(j)
                    } else {
                        p1 =~= p0
                    })
                    &&& post.last_id == (if has_key(p0, k) {
                        bumped(pre.last_id)
                    } else {
                        pre.last_id as int
                    })
                },
            }
        },
        Message::DamperPedal { pressure } => {
            let c = crate::fx::fx_clamp01(pressure.raw as int);
            &&& post.storage == pre.storage
            &&& post.pitch_bend == pre.pitch_bend
            &&& post.last_id == pre.last_id
            &&& post.damper_pedal_pressure.raw == fx_mul(fx_mul(c, c), c)
            &&& p1.len() == p0.len()
            &&& forall|i: int|
                0 <= i < p0.len() ==> (#[trigger] p1[i]).0 == p0[i].0 && p1[i].1 == (if p0[i].0
                    is Fading {
                    faded(p0[i].1, post.damper_pedal_pressure)
                } else {
                    p0[i].1
                })
        },
        Message::PitchBend { bend_level } => {
            &&& p1 =~= p0
            &&& post.storage == pre.storage
            &&& post.damper_pedal_pressure == pre.damper_pedal_pressure
            &&& post.last_id == pre.last_id
            &&& post.pitch_bend.raw == clip_i64(
                crate::fx::div_trunc(
                    pre.pitch_wheel_sensivity.raw * bend_level.raw,
                    FX_ONE_RAW as int,
                ),
            )
        },
        Message::Control { control, value } => {
            &&& p1 =~= p0
            &&& post.damper_pedal_pressure == pre.damper_pedal_pressure
            &&& post.pitch_bend == pre.pitch_bend
            &&& post.last_id == pre.last_id
            &&& post.storage == storage_written(pre.storage, control, value)
        },
    }
}

/// The render-side state of the synthesizer.
pub struct SynthState {
    pub playing: Vec<(WaveformState, Waveform)>,
    pub storage: ControlStorage,
    pub magnetron: Magnetron,
    pub damper_pedal_pressure: Fx,
    pub pitch_wheel_sensivity: Ratio,
    pub pitch_bend: Ratio,
    pub last_id: u64,
}

/// Well-formedness of the render-side state.
pub open spec fn synth_state_wf(s: SynthState) -> bool {
    &&& s.magnetron.wf()
    &&& keys_unique(s.playing@)
    &&& forall|i: int|
        0 <= i < s.playing@.len() ==> waveform_wf(
            (#[trigger] s.playing@[i]).1,
            s.magnetron.num_buffers(),
        )
    &&& forall|i: int|
        0 <= i < s.playing@.len() ==> ((#[trigger] s.playing@[i]).0 matches
        WaveformState::Fading(c) ==> c < s.last_id)
}

impl SynthState {
    /// Finds the index of a key in the table.
    fn find_key(&self, k: WaveformState) -> (r: Option<usize>)
        ensures
            r matches Some(i) ==> i < self.playing@.len() && self.playing@[i as int].0 == k,
            r is None ==> !has_key(self.playing@, k),
    {
        let n = self.playing.len();
        let mut i: usize = 0;
        while i < n
            invariant
                i <= n,
                n == self.playing@.len(),
                forall|j: int| 0 <= j < i ==> (#[trigger] self.playing@[j]).0 != k,
            decreases n - i,
        {
            if self.playing[i].0 == k {
                return Some(i);
            }
            i = i + 1;
        }
        None
    }

    /// Applies one message to the state; the exact transformation is
    /// [`message_applied`].
    #[verifier::rlimit(100)]
    pub fn process_message(&mut self, message: Message)
        requires
            synth_state_wf(*old(self)),
            message_wf(message, old(self).magnetron.num_buffers()),
        ensures
            synth_state_wf(*final(self)),
            message_applied(*old(self), *final(self), message),
    {
        match message {
            Message::Lifecycle { id, action } => {
                let k = WaveformState::Stable(id);
                match action {
                    Lifecycle::Start { waveform } => {
                        match self.find_key(k) {
                            Some(j) => {
                                // A second start for a held source behaves as a
                                // stop followed by a start: the old voice keeps
                                // fading while the new one takes the key.
                                let entry = self.playing.remove(j);
                                proof {
                                    lemma_remove_keeps_unique(old(self).playing@, j as int);
                                }
                                if self.last_id < u64::MAX {
                                    let (_, mut w) = entry;
                                    w.set_fade(self.damper_pedal_pressure);
                                    let fade_key = WaveformState::Fading(self.last_id);
                                    self.playing.push((fade_key, w));
                                    self.last_id = self.last_id + 1;
                                }
                                self.playing.push((k, waveform));
                                proof {
                                    assert(keys_unique(self.playing@));
                                    assert(forall|i: int|
                                        0 <= i < self.playing@.len() ==> waveform_wf(
                                            (#[trigger] self.playing@[i]).1,
                                            self.magnetron.num_buffers(),
                                        ));
                                }
                            },
                            None => {
                                self.playing.push((k, waveform));
                                proof {
                                    assert(keys_unique(self.playing@));
                                    assert(forall|i: int|
                                        0 <= i < self.playing@.len() ==> waveform_wf(
                                            (#[trigger] self.playing@[i]).1,
                                            self.magnetron.num_buffers(),
                                        ));
                                }
                            },
                        }
                    },
                    Lifecycle::UpdatePitch { pitch } => {
                        match self.find_key(k) {
                            Some(j) => {
                                let entry = self.playing.remove(j);
                                let (key, mut w) = entry;
                                w.properties.pitch = pitch;
                                self.playing.insert(j, (key, w));
                                proof {
                                    assert(self.playing@ =~= old(self).playing@.update(
                                        j as int,
                                        self.playing@[j as int],
                                    ));
                                }

                                proof {
                                    assert(keys_unique(self.playing@));
                                    assert(forall|i: int|
                                        0 <= i < self.playing@.len() ==> waveform_wf(
                                            (#[trigger] self.playing@[i]).1,
                                            self.magnetron.num_buffers(),
                                        ));
                                }
                            },
                            None => {},
                        }
                    },
                    Lifecycle::UpdatePressure { pressure } => {
                        match self.find_key(k) {
                            Some(j) => {
                                let entry = self.playing.remove(j);
                                let (key, mut w) = entry;
                                w.properties.pressure = pressure;
                                self.playing.insert(j, (key, w));
                                proof {
                                    assert(self.playing@ =~= old(self).playing@.update(
                                        j as int,
                                        self.playing@[j as int],
                                    ));
                                }
                            },
                            None => {},
                        }
                    },
                    Lifecycle::Stop => {
                        match self.find_key(k) {
                            Some(j) => {
                                let entry = self.playing.remove(j);
                                proof {
                                    lemma_remove_keeps_unique(old(self).playing@, j as int);
                                }
                                if self.last_id < u64::MAX {
                                    let (_, mut w) = entry;
                                    w.set_fade(self.damper_pedal_pressure);
                                    let fade_key = WaveformState::Fading(self.last_id);
                                    self.playing.push((fade_key, w));
                                    self.last_id = self.last_id + 1;
                                    proof {
                                        lemma_stable_gone(
                                            old(self).playing@,
                                            j as int,
                                            self.playing@,
                                            k,
                                        );
                                    }
                                } else {
                                    proof {
                                        assert(forall|i: int|
                                            0 <= i < self.playing@.len()
                                                ==> (#[trigger] self.playing@[i]).0 != k);
                                    }
                                }
                            },
                            None => {},
                        }
                    },
                }
            },
            Message::DamperPedal { pressure } => {
                let c = pressure.clamp01();
                let curve = c.mul(c).mul(c);
                self.damper_pedal_pressure = curve;
                let n = self.playing.len();
                let mut i: usize = 0;
                while i < n
                    invariant
                        i <= n,
                        n == self.playing@.len(),
                        self.playing@.len() == old(self).playing@.len(),
                        keys_unique(old(self).playing@),
                        self.damper_pedal_pressure == curve,
                        forall|j: int|
                            0 <= j < n ==> (#[trigger] self.playing@[j]).0 == old(
                                self,
                            ).playing@[j].0,
                        forall|j: int|
                            0 <= j < i ==> (#[trigger] self.playing@[j]).1 == (if old(
                                self,
                            ).playing@[j].0 is Fading {
                                faded(old(self).playing@[j].1, curve)
                            } else {
                                old(self).playing@[j].1
                            }),
                        forall|j: int|
                            i <= j < n ==> (#[trigger] self.playing@[j]).1 == old(
                                self,
                            ).playing@[j].1,
                        forall|j: int|
                            0 <= j < n ==> waveform_wf(
                                (#[trigger] self.playing@[j]).1,
                                self.magnetron.num_buffers(),
                            ),
                        self.magnetron == old(self).magnetron,
                        self.storage == old(self).storage,
                        self.pitch_bend == old(self).pitch_bend,
                        self.pitch_wheel_sensivity == old(self).pitch_wheel_sensivity,
                        self.last_id == old(self).last_id,
                    decreases n - i,
                {
                    let is_fading = match self.playing[i].0 {
                        WaveformState::Fading(_) => true,
                        WaveformState::Stable(_) => false,
                    };
                    if is_fading {
                        let ghost before = self.playing@;
                        let entry = self.playing.remove(i);
                        let (key, mut w) = entry;
                        w.set_fade(curve);
                        self.playing.insert(i, (key, w));
                        proof {
                            assert(self.playing@ =~= before.update(i as int, (key, w)));
                        }
                    }
                    i = i + 1;
                }
                proof {
                    assert(keys_unique(self.playing@));
                }
            },
            Message::PitchBend { bend_level } => {
                self.pitch_bend = self.pitch_wheel_sensivity.repeated_by(bend_level);
            },
            Message::Control { control, value } => {
                self.storage.write(control, value);
            },
        }
    }
}

/// Removing an entry keeps the remaining keys unique.
proof fn lemma_remove_keeps_unique(p: Seq<(WaveformState, Waveform)>, j: int)
    requires
        keys_unique(p),
        0 <= j < p.len(),
    ensures
        keys_unique(p.remove(j)),
        forall|k: int|
            0 <= k < p.remove(j).len() ==> #[trigger] p.remove(j)[k] == (if k < j {
                p[k]
            } else {
                p[k + 1]
            }),
{
    let q = p.remove(j);
    assert forall|k: int| 0 <= k < q.len() implies #[trigger] q[k] == (if k < j {
        p[k]
    } else {
        p[k + 1]
    }) by {}
    assert forall|a: int, b: int| 0 <= a < b < q.len() implies (#[trigger] q[a]).0 != (
    #[trigger] q[b]).0 by {
        let a2 = if a < j {
            a
        } else {
            a + 1
        };
        let b2 = if b < j {
            b
        } else {
            b + 1
        };
        assert(q[a] == p[a2]);
        assert(q[b] == p[b2]);
    }
}

/// After a stop, the stable key is gone: the remaining entries come from
/// the table without the removed index, and the pushed key is a fading
/// one.
proof fn lemma_stable_gone(
    p0: Seq<(WaveformState, Waveform)>,
    j: int,
    p1: Seq<(WaveformState, Waveform)>,
    k: WaveformState,
)
    requires
        keys_unique(p0),
        0 <= j < p0.len(),
        p0[j].0 == k,
        k is Stable,
        p1.len() == p0.len(),
        forall|i: int| 0 <= i < p0.len() - 1 ==> #[trigger] p1[i] == p0.remove(j)[i],
        p1[p1.len() - 1].0 is Fading,
    ensures
        !has_key(p1, k),
{
    assert forall|i: int| 0 <= i < p1.len() implies (#[trigger] p1[i]).0 != k by {
        if i < p1.len() - 1 {
            if i < j {
                assert(p1[i] == p0[i]);
            } else {
                assert(p1[i] == p0[i + 1]);
            }
        }
    }
}

/// Attenuation applied when accumulating a voice total into the host
/// buffer: the raw Q32.32 value of 1/10 (-20 dB).
pub const ATTENUATION_RAW: i64 = 429496729;

/// The render side: pending messages and the synthesizer state.
pub struct WaveformSynth {
    pub messages: Vec<Message>,
    pub state: SynthState,
    pub sample_width: Fx,
}

/// Well-formedness of the render side.
pub open spec fn synth_wf(s: WaveformSynth) -> bool {
    &&& synth_state_wf(s.state)
    &&& s.sample_width.raw >= 0
    &&& forall|i: int|
        0 <= i < s.messages@.len() ==> message_wf(
            #[trigger] s.messages@[i],
            s.state.magnetron.num_buffers(),
        )
}

/// The invariants of a voice table: unique keys, well-formed voices and
/// fresh fading counters.
pub open spec fn table_inv(p: Seq<(WaveformState, Waveform)>, nbuf: nat, last_id: u64) -> bool {
    &&& keys_unique(p)
    &&& forall|i: int| 0 <= i < p.len() ==> waveform_wf((#[trigger] p[i]).1, nbuf)
    &&& forall|i: int|
        0 <= i < p.len() ==> ((#[trigger] p[i]).0 matches WaveformState::Fading(c) ==> c
            < last_id)
}

/// A table with the same keys and well-formed voices keeps its invariants.
proof fn lemma_table_inv_pointwise(
    p: Seq<(WaveformState, Waveform)>,
    q: Seq<(WaveformState, Waveform)>,
    nbuf: nat,
    last_id: u64,
)
    requires
        table_inv(p, nbuf, last_id),
        q.len() == p.len(),
        forall|i: int| 0 <= i < q.len() ==> (#[trigger] q[i]).0 == p[i].0,
        forall|i: int| 0 <= i < q.len() ==> waveform_wf((#[trigger] q[i]).1, nbuf),
    ensures
        table_inv(q, nbuf, last_id),
{
    assert forall|i: int, j: int| 0 <= i < j < q.len() implies (#[trigger] q[i]).0 != (
    #[trigger] q[j]).0 by {
        assert(p[i].0 != p[j].0);
    }
    assert forall|i: int|
        0 <= i < q.len() implies ((#[trigger] q[i]).0 matches WaveformState::Fading(c) ==> c
            < last_id) by {
        assert(q[i].0 == p[i].0);
    }
}

/// Removing an entry keeps the table invariants.
proof fn lemma_table_inv_remove(p: Seq<(WaveformState, Waveform)>, j: int, nbuf: nat, last_id: u64)
    requires
        table_inv(p, nbuf, last_id),
        0 <= j < p.len(),
    ensures
        table_inv(p.remove(j), nbuf, last_id),
{
    let q = p.remove(j);
    assert forall|k: int| 0 <= k < q.len() implies #[trigger] q[k] == (if k < j {
        p[k]
    } else {
        p[k + 1]
    }) by {}
    assert forall|a: int, b: int| 0 <= a < b < q.len() implies (#[trigger] q[a]).0 != (
    #[trigger] q[b]).0 by {
        let a2 = if a < j {
            a
        } else {
            a + 1
        };
        let b2 = if b < j {
            b
        } else {
            b + 1
        };
        assert(q[a] == p[a2]);
        assert(q[b] == p[b2]);
    }
}

/// The pool prepared for a block: every buffer zeroed to the new block
/// length and the host's audio-in samples copied in (missing samples are
/// zero).
pub open spec fn block_prepared(base: Magnetron, c: Magnetron, n: nat, ain: Seq<i64>) -> bool {
    &&& c.wf()
    &&& c.num_buffers() == base.num_buffers()
    &&& c.spec_block_len() == n
    &&& forall|j: int, i: int|
        0 <= j < c.num_buffers() && 0 <= i < n ==> #[trigger] c.buffer_at(j)[i] == 0
    &&& forall|i: int| 0 <= i < n ==> c.voice_out_view()[i] == 0
    &&& forall|i: int| 0 <= i < n ==> c.total_view()[i] == 0
    &&& forall|i: int|
        0 <= i < n ==> c.audio_in_view()[i] == (if i < ain.len() {
            ain[i]
        } else {
            0i64
        })
}

/// The first `upto` frames of the attenuated mixdown accumulated into the
/// host's interleaved stereo buffer: each frame adds the attenuated total
/// to both the left and the right sample, saturating.
pub open spec fn frames_accumulated(
    pre_buf: Seq<i64>,
    post_buf: Seq<i64>,
    m: Magnetron,
    upto: int,
) -> bool {
    forall|i: int|
        0 <= i < upto && 2 * i + 1 < pre_buf.len() ==> {
            let out = fx_mul(m.total_view()[i] as int, ATTENUATION_RAW as int);
            &&& #[trigger] post_buf[2 * i] == clip_i64(pre_buf[2 * i] + out)
            &&& post_buf[2 * i + 1] == clip_i64(pre_buf[2 * i + 1] + out)
        }
}

/// The whole block of the attenuated mixdown accumulated into the host's
/// interleaved stereo buffer.
pub open spec fn mixdown_accumulated(pre_buf: Seq<i64>, post_buf: Seq<i64>, m: Magnetron) -> bool {
    frames_accumulated(pre_buf, post_buf, m, m.spec_block_len() as int)
}

/// One full block of [`WaveformSynth::write`]: the queued messages are
/// applied in order, the pool is prepared for the block, the surviving
/// voices render in table order, and the scalar state is otherwise kept.
pub open spec fn block_written(
    pre: WaveformSynth,
    post: WaveformSynth,
    drained: SynthState,
    cleared: Magnetron,
    ain: Seq<i64>,
    n: nat,
) -> bool {
    &&& messages_applied(pre.state, drained, pre.messages@)
    &&& block_prepared(drained.magnetron, cleared, n, ain)
    &&& voice_pass(
        drained.playing@,
        post.state.playing@,
        cleared,
        post.state.magnetron,
        drained.storage,
        drained.pitch_bend,
        pre.sample_width,
    )
    &&& post.state.storage == drained.storage
    &&& post.state.damper_pedal_pressure == drained.damper_pedal_pressure
    &&& post.state.pitch_bend == drained.pitch_bend
    &&& post.state.pitch_wheel_sensivity == drained.pitch_wheel_sensivity
    &&& post.state.last_id == drained.last_id
    &&& post.sample_width == pre.sample_width
}

/// Messages applied to the state in order, through [`message_applied`].
pub open spec fn messages_applied(pre: SynthState, post: SynthState, msgs: Seq<Message>) -> bool
    decreases msgs.len(),
{
    if msgs.len() == 0 {
        post == pre
    } else {
        exists|mid: SynthState|
            #[trigger] message_applied(pre, mid, msgs[0]) && messages_applied(
                mid,
                post,
                msgs.skip(1),
            )
    }
}

/// Extending an applied message sequence by one more applied message.
pub proof fn lemma_messages_applied_snoc(
    pre: SynthState,
    mid: SynthState,
    post: SynthState,
    msgs: Seq<Message>,
    m: Message,
)
    requires
        messages_applied(pre, mid, msgs),
        message_applied(mid, post, m),
    ensures
        messages_applied(pre, post, msgs.push(m)),
    decreases msgs.len(),
{
    if msgs.len() == 0 {
        assert(msgs.push(m)[0] == m);
        assert(msgs.push(m).skip(1) =~= Seq::<Message>::empty());
        assert(messages_applied(post, post, msgs.push(m).skip(1)));
    } else {
        let mid1 = choose|mid1: SynthState|
            #[trigger] message_applied(pre, mid1, msgs[0]) && messages_applied(
                mid1,
                mid,
                msgs.skip(1),
            );
        lemma_messages_applied_snoc(mid1, mid, post, msgs.skip(1), m);
        assert(msgs.skip(1).push(m) =~= msgs.push(m).skip(1));
        assert(msgs.push(m)[0] == msgs[0]);
    }
}

/// A voice with the current pitch bend applied when its source still
/// holds the key; fading voices keep the bend they had.
pub open spec fn bent(e: (WaveformState, Waveform), bend: Ratio) -> Waveform {
    if e.0 is Stable {
        Waveform {
            properties: WaveformProperties { pitch_bend: bend, ..e.1.properties },
            ..e.1
        }
    } else {
        e.1
    }
}

/// The voice pass of one block: voices whose tracked amplitude has fallen
/// below the retirement threshold are dropped; every other voice is
/// rendered in table order (stable voices first receiving the current
/// pitch bend), each render relating consecutive pool states exactly.
pub open spec fn voice_pass(
    inp: Seq<(WaveformState, Waveform)>,
    outp: Seq<(WaveformState, Waveform)>,
    m0: Magnetron,
    m1: Magnetron,
    storage: ControlStorage,
    bend: Ratio,
    sw: Fx,
) -> bool
    decreases inp.len(),
{
    if inp.len() == 0 {
        outp.len() == 0 && m1 == m0
    } else if inp[0].1.properties.curr_amplitude.raw < AMP_RETIRE_RAW {
        voice_pass(inp.skip(1), outp, m0, m1, storage, bend, sw)
    } else {
        exists|mid: Magnetron, v2: Waveform|
            {
                &&& #[trigger] crate::waveform::waveform_render_rel(
                    bent(inp[0], bend),
                    v2,
                    m0,
                    mid,
                    storage,
                    sw,
                )
                &&& outp.len() >= 1
                &&& outp[0] == (inp[0].0, v2)
                &&& voice_pass(inp.skip(1), outp.skip(1), mid, m1, storage, bend, sw)
            }
    }
}

impl WaveformSynth {
    /// Hands a batch of control-side messages to the render side.
    pub fn enqueue(&mut self, mut messages: Vec<Message>)
        requires
            synth_wf(*old(self)),
            forall|i: int|
                0 <= i < messages@.len() ==> message_wf(
                    #[trigger] messages@[i],
                    old(self).state.magnetron.num_buffers(),
                ),
        ensures
            synth_wf(*final(self)),
            final(self).state == old(self).state,
            final(self).sample_width == old(self).sample_width,
            final(self).messages@ == old(self).messages@ + messages@,
    {
        let n = messages.len();
        let ghost given = messages@;
        let mut i: usize = 0;
        while i < n
            invariant
                synth_wf(*self),
                self.state == old(self).state,
                self.sample_width == old(self).sample_width,
                i <= n,
                n == given.len(),
                messages@ =~= given.skip(i as int),
                self.messages@ =~= old(self).messages@ + given.take(i as int),
                forall|j: int|
                    0 <= j < messages@.len() ==> message_wf(
                        #[trigger] messages@[j],
                        self.state.magnetron.num_buffers(),
                    ),
            decreases n - i,
        {
            let m = messages.remove(0);
            self.messages.push(m);
            i = i + 1;
            proof {
                assert(given.take(i as int) =~= given.take(i - 1).push(given[i - 1]));
                assert(self.messages@ =~= old(self).messages@ + given.take(i as int));
            }
        }
        proof {
            assert(given.take(n as int) =~= given);
        }
    }

    /// Renders one block: drains the pending messages, renders every live
    /// voice into the pool, retires voices whose amplitude has fallen below
    /// the threshold, and accumulates the attenuated mixdown into the
    /// host's interleaved stereo buffer.
    #[verifier::rlimit(100)]
    pub fn write(&mut self, buffer: &mut Vec<i64>, audio_in: &Vec<i64>)
        requires
            synth_wf(*old(self)),
            old(buffer)@.len() <= 0x20_0000,
        ensures
            synth_wf(*final(self)),
            final(self).messages@.len() == 0,
            final(buffer)@.len() == old(buffer)@.len(),
            final(self).state.magnetron.spec_block_len() == old(buffer)@.len() / 2,
            exists|drained: SynthState, cleared: Magnetron| #[trigger] block_written(
                *old(self),
                *final(self),
                drained,
                cleared,
                audio_in@,
                (old(buffer)@.len() / 2) as nat,
            ),
            mixdown_accumulated(old(buffer)@, final(buffer)@, final(self).state.magnetron),
    {
        let ghost msgs0 = self.messages@;
        let ghost state0 = self.state;
        let ghost mut done: int = 0;
        proof {
            assert(msgs0.take(0) =~= Seq::<Message>::empty());
            assert(msgs0.skip(0) =~= msgs0);
        }
        while self.messages.len() > 0
            invariant
                synth_wf(*self),
                self.sample_width == old(self).sample_width,
                0 <= done <= msgs0.len(),
                self.messages@ =~= msgs0.skip(done),
                messages_applied(state0, self.state, msgs0.take(done)),
            decreases self.messages@.len(),
        {
            let ghost pre_state = self.state;
            let m = self.messages.remove(0);
            let ghost m_g = m;
            proof {
                assert(msgs0.skip(done)[0] == msgs0[done]);
            }
            self.state.process_message(m);
            proof {
                lemma_messages_applied_snoc(
                    state0,
                    pre_state,
                    self.state,
                    msgs0.take(done),
                    m_g,
                );
                assert(msgs0.take(done).push(msgs0[done]) =~= msgs0.take(done + 1));
                assert(msgs0.skip(done).skip(1) =~= msgs0.skip(done + 1));
                done = done + 1;
            }
        }
        proof {
            assert(msgs0.take(done) =~= msgs0);
        }
        let ghost drained = self.state;

        let block_len = buffer.len() / 2;
        self.state.magnetron.clear(block_len);
        self.state.magnetron.set_audio_in(audio_in);
        let ghost cleared_m = self.state.magnetron;
        proof {
            assert(block_prepared(drained.magnetron, cleared_m, block_len as nat, audio_in@));
        }

        let n = self.state.playing.len();
        let ghost drained_playing = self.state.playing@;
        let mut remaining: Vec<(WaveformState, Waveform)> = Vec::new();
        let mut k: usize = 0;
        let ghost nbuf = self.state.magnetron.num_buffers();
        let ghost sd = drained.storage;
        let ghost bd = drained.pitch_bend;
        let ghost sw_g = old(self).sample_width;
        proof {
            assert(remaining@ + self.state.playing@ =~= drained_playing);
            assert(table_inv(remaining@ + self.state.playing@, nbuf, drained.last_id));
            assert forall|rest_out: Seq<(WaveformState, Waveform)>, mfin: Magnetron|
                #[trigger] voice_pass(
                self.state.playing@,
                rest_out,
                self.state.magnetron,
                mfin,
                sd,
                bd,
                sw_g,
            ) implies voice_pass(
                drained_playing,
                remaining@ + rest_out,
                cleared_m,
                mfin,
                sd,
                bd,
                sw_g,
            ) by {
                assert(remaining@ + rest_out =~= rest_out);
            };
        }
        while k < n
            invariant
                k <= n,
                self.state.playing@.len() == n - k,
                self.state.magnetron.wf(),
                self.state.magnetron.num_buffers() == nbuf,
                self.state.magnetron.spec_block_len() == block_len,
                self.messages@.len() == 0,
                self.sample_width == old(self).sample_width,
                self.sample_width == sw_g,
                self.sample_width.raw >= 0,
                self.state.storage == sd,
                self.state.pitch_bend == bd,
                self.state.damper_pedal_pressure == drained.damper_pedal_pressure,
                self.state.pitch_wheel_sensivity == drained.pitch_wheel_sensivity,
                self.state.last_id == drained.last_id,
                table_inv(remaining@ + self.state.playing@, nbuf, drained.last_id),
                forall|rest_out: Seq<(WaveformState, Waveform)>, mfin: Magnetron|
                    #[trigger] voice_pass(
                        self.state.playing@,
                        rest_out,
                        self.state.magnetron,
                        mfin,
                        sd,
                        bd,
                        sw_g,
                    ) ==> voice_pass(
                        drained_playing,
                        remaining@ + rest_out,
                        cleared_m,
                        mfin,
                        sd,
                        bd,
                        sw_g,
                    ),
            decreases n - k,
        {
            let ghost pend0 = self.state.playing@;
            let ghost rem0 = remaining@;
            let ghost m_before = self.state.magnetron;
            proof {
                assert((rem0 + pend0)[rem0.len() as int] == pend0[0]);
                assert(forall|i: int|
                    0 <= i < pend0.len() ==> (rem0 + pend0)[rem0.len() + i] == #[trigger] pend0[i]);
                assert(waveform_wf(pend0[0].1, nbuf));
            }
            let entry = self.state.playing.remove(0);
            let ghost e_g = entry;
            let (key, mut voice) = entry;
            if voice.properties.curr_amplitude.raw >= AMP_RETIRE_RAW {
                let is_stable = match key {
                    WaveformState::Stable(_) => true,
                    WaveformState::Fading(_) => false,
                };
                if is_stable {
                    voice.properties.pitch_bend = self.state.pitch_bend;
                }
                proof {
                    assert(voice == crate::synth::bent(e_g, bd));
                }
                let voice2 = voice.render(
                    &mut self.state.magnetron,
                    &self.state.storage,
                    self.sample_width,
                );
                remaining.push((key, voice2));
                proof {
                    assert(crate::waveform::waveform_render_rel(
                        crate::synth::bent(e_g, bd),
                        voice2,
                        m_before,
                        self.state.magnetron,
                        sd,
                        sw_g,
                    ));
                    assert forall|rest_out: Seq<(WaveformState, Waveform)>, mfin: Magnetron|
                        #[trigger] voice_pass(
                            self.state.playing@,
                            rest_out,
                            self.state.magnetron,
                            mfin,
                            sd,
                            bd,
                            sw_g,
                        ) implies voice_pass(
                            drained_playing,
                            remaining@ + rest_out,
                            cleared_m,
                            mfin,
                            sd,
                            bd,
                            sw_g,
                        ) by {
                        let x = seq![(e_g.0, voice2)] + rest_out;
                        assert(x.skip(1) =~= rest_out);
                        assert(x[0] == (e_g.0, voice2));
                        assert(pend0[0] == e_g);
                        assert(pend0.skip(1) =~= self.state.playing@);
                        assert(crate::waveform::waveform_render_rel(
                            crate::synth::bent(pend0[0], bd),
                            voice2,
                            m_before,
                            self.state.magnetron,
                            sd,
                            sw_g,
                        ));
                        assert(voice_pass(pend0, x, m_before, mfin, sd, bd, sw_g));
                        assert(rem0 + x =~= remaining@ + rest_out);
                    };
                    let ghost p_old = rem0 + pend0;
                    let ghost p_new = remaining@ + self.state.playing@;
                    assert(p_new.len() == p_old.len());
                    assert forall|i: int| 0 <= i < p_new.len() implies (#[trigger] p_new[i]).0
                        == p_old[i].0 by {
                        if i < rem0.len() {
                            assert(p_new[i] == rem0[i]);
                            assert(p_old[i] == rem0[i]);
                        } else if i == rem0.len() {
                            assert(p_new[i] == (e_g.0, voice2));
                            assert(p_old[i] == pend0[0]);
                        } else {
                            assert(p_new[i] == pend0[i - rem0.len()]);
                            assert(p_old[i] == pend0[i - rem0.len()]);
                        }
                    }
                    assert forall|i: int| 0 <= i < p_new.len() implies waveform_wf(
                        (#[trigger] p_new[i]).1,
                        nbuf,
                    ) by {
                        if i < rem0.len() {
                            assert(p_new[i] == rem0[i]);
                            assert(p_old[i] == rem0[i]);
                        } else if i == rem0.len() {
                            assert(p_new[i] == (e_g.0, voice2));
                        } else {
                            assert(p_new[i] == pend0[i - rem0.len()]);
                            assert(p_old[i] == pend0[i - rem0.len()]);
                        }
                    }
                    lemma_table_inv_pointwise(p_old, p_new, nbuf, drained.last_id);
                }
            } else {
                proof {
                    assert forall|rest_out: Seq<(WaveformState, Waveform)>, mfin: Magnetron|
                        #[trigger] voice_pass(
                            self.state.playing@,
                            rest_out,
                            self.state.magnetron,
                            mfin,
                            sd,
                            bd,
                            sw_g,
                        ) implies voice_pass(
                            drained_playing,
                            remaining@ + rest_out,
                            cleared_m,
                            mfin,
                            sd,
                            bd,
                            sw_g,
                        ) by {
                        assert(pend0[0] == e_g);
                        assert(pend0.skip(1) =~= self.state.playing@);
                        assert(self.state.magnetron == m_before);
                        assert(voice_pass(pend0, rest_out, m_before, mfin, sd, bd, sw_g));
                        assert(rem0 + rest_out =~= remaining@ + rest_out);
                    };
                    lemma_table_inv_remove(rem0 + pend0, rem0.len() as int, nbuf, drained.last_id);
                    assert((rem0 + pend0).remove(rem0.len() as int) =~= remaining@
                        + self.state.playing@);
                }
            }
            k = k + 1;
        }
        proof {
            assert(voice_pass(
                self.state.playing@,
                Seq::<(WaveformState, Waveform)>::empty(),
                self.state.magnetron,
                self.state.magnetron,
                sd,
                bd,
                sw_g,
            ));
            assert(remaining@ + Seq::<(WaveformState, Waveform)>::empty() =~= remaining@);
            assert(voice_pass(
                drained_playing,
                remaining@,
                cleared_m,
                self.state.magnetron,
                sd,
                bd,
                sw_g,
            ));
            assert(remaining@ + self.state.playing@ =~= remaining@);
            assert(table_inv(remaining@, nbuf, drained.last_id));
        }
        self.state.playing = remaining;

        let ghost self_snap = *self;
        let total_len = self.state.magnetron.len();
        proof {
            assert(2 * (old(buffer)@.len() as int / 2) <= old(buffer)@.len());
        }
        let mut i: usize = 0;
        while i < total_len
            invariant
                *self == self_snap,
                i <= total_len,
                total_len == self.state.magnetron.spec_block_len(),
                total_len == old(buffer)@.len() / 2,
                synth_state_wf(self.state),
                self.messages@.len() == 0,
                self.sample_width.raw >= 0,
                buffer@.len() == old(buffer)@.len(),
                2 * total_len <= buffer@.len(),
                frames_accumulated(old(buffer)@, buffer@, self.state.magnetron, i as int),
                forall|k: int|
                    2 * i <= k < buffer@.len() ==> #[trigger] buffer@[k] == old(buffer)@[k],
            decreases total_len - i,
        {
            let t = self.state.magnetron.total()[i];
            proof {
                assert(t == self.state.magnetron.total_view()[i as int]);
            }
            let att = Fx { raw: ATTENUATION_RAW };
            let out = Fx { raw: t }.mul(att);
            proof {
                assert(out.raw == clip_i64(
                    crate::fx::div_trunc(t * ATTENUATION_RAW, FX_ONE_RAW as int),
                ));
                assert(out.raw == fx_mul(
                    self.state.magnetron.total_view()[i as int] as int,
                    ATTENUATION_RAW as int,
                ));
            }
            if 2 * i + 1 < buffer.len() {
                let l = Fx { raw: buffer[2 * i] }.add(out);
                let r = Fx { raw: buffer[2 * i + 1] }.add(out);
                buffer.set(2 * i, l.raw);
                buffer.set(2 * i + 1, r.raw);
                proof {
                    assert(buffer@[2 * (i as int)] == clip_i64(
                        old(buffer)@[2 * (i as int)] + out.raw,
                    ));
                    assert(buffer@[2 * (i as int) + 1] == clip_i64(
                        old(buffer)@[2 * (i as int) + 1] + out.raw,
                    ));
                }
            }
            proof {
                assert(frames_accumulated(
                    old(buffer)@,
                    buffer@,
                    self.state.magnetron,
                    i + 1,
                ));
            }
            i = i + 1;
        }
        proof {
            assert(frames_accumulated(
                old(buffer)@,
                buffer@,
                self.state.magnetron,
                self.state.magnetron.spec_block_len() as int,
            ));
            assert(mixdown_accumulated(old(buffer)@, buffer@, self.state.magnetron));
            assert(block_written(
                *old(self),
                *self,
                drained,
                cleared_m,
                audio_in@,
                (old(buffer)@.len() / 2) as nat,
            ));
        }
    }
}

impl SynthState {
    /// Inserts a rendered voice back into the table, dropping it if its
    /// key is stale (which the render pass never produces).
    fn reinsert(&mut self, key: WaveformState, voice: Waveform)
        requires
            synth_state_wf(*old(self)),
            waveform_wf(voice, old(self).magnetron.num_buffers()),
        ensures
            synth_state_wf(*final(self)),
            final(self).magnetron == old(self).magnetron,
            final(self).storage == old(self).storage,
            final(self).control_fields_unchanged(*old(self)),
    {
        let fresh = match key {
            WaveformState::Stable(_) => !has_key_exec(&self.playing, key),
            WaveformState::Fading(c) => c < self.last_id && !has_key_exec(&self.playing, key),
        };
        if fresh {
            self.playing.push((key, voice));
        }
    }

    /// The control-side fields a reinsertion never touches.
    pub open spec fn control_fields_unchanged(self, other: SynthState) -> bool {
        &&& self.damper_pedal_pressure == other.damper_pedal_pressure
        &&& self.pitch_wheel_sensivity == other.pitch_wheel_sensivity
        &&& self.pitch_bend == other.pitch_bend
        &&& self.last_id == other.last_id
    }
}

/// Whether the table holds the key, as executable code.
fn has_key_exec(p: &Vec<(WaveformState, Waveform)>, k: WaveformState) -> (r: bool)
    ensures
        r == has_key(p@, k),
{
    let n = p.len();
    let mut i: usize = 0;
    while i < n
        invariant
            i <= n,
            n == p@.len(),
            forall|j: int| 0 <= j < i ==> (#[trigger] p@[j]).0 != k,
        decreases n - i,
    {
        if p[i].0 == k {
            return true;
        }
        i = i + 1;
    }
    false
}

/// A 7-bit MIDI value scaled to `[0, 1]` in Q32.32.
pub open spec fn norm7(v: u8) -> Fx {
    Fx { raw: clip_i64(crate::fx::div_trunc(v * FX_ONE_RAW, 127)) as i64 }
}

/// One queued control message.
pub open spec fn ctrl_msg(control: SynthControl, v: Fx) -> Message {
    Message::Control { control, value: v }
}

/// The messages a control-change queues, in routing order: each live
/// parameter whose controller number matches gets one control message, and
/// a matching damper number additionally queues the damper-pedal message
/// first.
pub open spec fn cc_messages(cc: ControlChangeNumbers, controller: u8, v: Fx) -> Seq<Message> {
    let s0 = Seq::<Message>::empty();
    let s1 = if controller == cc.modulation {
        s0.push(ctrl_msg(SynthControl::Modulation, v))
    } else {
        s0
    };
    let s2 = if controller == cc.breath {
        s1.push(ctrl_msg(SynthControl::Breath, v))
    } else {
        s1
    };
    let s3 = if controller == cc.foot {
        s2.push(ctrl_msg(SynthControl::Foot, v))
    } else {
        s2
    };
    let s4 = if controller == cc.expression {
        s3.push(ctrl_msg(SynthControl::Expression, v))
    } else {
        s3
    };
    let s5 = if controller == cc.damper {
        s4.push(Message::DamperPedal { pressure: v }).push(ctrl_msg(SynthControl::Damper, v))
    } else {
        s4
    };
    let s6 = if controller == cc.sostenuto {
        s5.push(ctrl_msg(SynthControl::Sostenuto, v))
    } else {
        s5
    };
    if controller == cc.soft {
        s6.push(ctrl_msg(SynthControl::SoftPedal, v))
    } else {
        s6
    }
}

/// The control-side half of the synthesizer: it builds voices from the
/// selected waveform specification and queues messages for the render
/// side.
pub struct WaveformBackend {
    pub messages: Vec<Message>,
    pub waveforms: Vec<WaveformSpec>,
    pub envelopes: Vec<NamedEnvelopeSpec>,
    pub creator: Creator,
    pub curr_waveform: usize,
    pub cc_numbers: ControlChangeNumbers,
    pub envelope_type: Option<EnvelopeType>,
    pub num_buffers: usize,
    pub next_seed: u64,
}

/// Well-formedness of the control side.
pub open spec fn backend_wf(b: WaveformBackend) -> bool {
    &&& b.waveforms@.len() > 0
    &&& b.curr_waveform < b.waveforms@.len()
    &&& crate::creator::creator_wf(b.creator)
    &&& forall|i: int|
        0 <= i < b.messages@.len() ==> message_wf(#[trigger] b.messages@[i], b.num_buffers as nat)
}

impl WaveformBackend {
    /// Takes the queued messages, leaving the queue empty.
    pub fn take_messages(&mut self) -> (r: Vec<Message>)
        requires
            backend_wf(*old(self)),
        ensures
            backend_wf(*final(self)),
            final(self).messages@.len() == 0,
            r@ == old(self).messages@,
            final(self).num_buffers == old(self).num_buffers,
            forall|i: int|
                0 <= i < r@.len() ==> message_wf(#[trigger] r@[i], old(self).num_buffers as nat),
    {
        let mut out: Vec<Message> = Vec::new();
        let ghost orig = self.messages@;
        while self.messages.len() > 0
            invariant
                backend_wf(*self),
                self.num_buffers == old(self).num_buffers,
                self.waveforms == old(self).waveforms,
                self.envelopes == old(self).envelopes,
                self.creator == old(self).creator,
                self.curr_waveform == old(self).curr_waveform,
                self.cc_numbers == old(self).cc_numbers,
                self.envelope_type == old(self).envelope_type,
                self.next_seed == old(self).next_seed,
                out@ + self.messages@ =~= orig,
            decreases self.messages@.len(),
        {
            let m = self.messages.remove(0);
            out.push(m);
        }
        out
    }

    /// The status record of the currently selected waveform.
    pub fn send_status(&self) -> (r: WaveformInfo)
        requires
            backend_wf(*self),
        ensures
            r.waveform_number == self.curr_waveform,
            r.preferred_envelope == self.envelope_type,
    {
        let spec = &self.waveforms[self.curr_waveform];
        WaveformInfo {
            waveform_number: self.curr_waveform,
            waveform_name: clone_string(&spec.name),
            waveform_envelope: clone_string(&spec.envelope),
            preferred_envelope: self.envelope_type,
        }
    }

    /// Builds a voice for the current waveform and queues its start.  A
    /// specification that does not instantiate (which validation at load
    /// time rules out) queues nothing and reports the error.
    pub fn start(&mut self, id: SourceId, degree: i32, pitch: Pitch, velocity: u8) -> (r: Result<
        (),
        ConfigError,
    >)
        requires
            backend_wf(*old(self)),
        ensures
            backend_wf(*final(self)),
            final(self).num_buffers == old(self).num_buffers,
            *final(self) == (WaveformBackend {
                messages: final(self).messages,
                next_seed: final(self).next_seed,
                ..*old(self)
            }),
            r is Ok <==> start_ok(*old(self)),
            r is Ok ==> final(self).messages@.len() == old(self).messages@.len() + 1
                && final(self).messages@.take(old(self).messages@.len() as int) == old(
                self,
            ).messages@ && (final(self).messages@.last() matches Message::Lifecycle {
                id: qid,
                action: Lifecycle::Start { waveform: w },
            } && qid == id && w.properties.pitch == pitch && w.properties.velocity == norm7(
                velocity,
            ) && w.properties.pitch_bend.raw == 0 && w.properties.curr_amplitude.raw
                == FX_ONE_RAW && w.stages@.len() == old(self).waveforms@[old(
                self,
            ).curr_waveform as int].stages@.len()),
            r is Err ==> final(self).messages@ == old(self).messages@,
    {
        let _ = degree;
        let spec = &self.waveforms[self.curr_waveform];
        let envelope_name: String = match &self.envelope_type {
            Some(t) => envelope_type_str(t).to_owned(),
            None => clone_string(&spec.envelope),
        };
        let env_spec = match find_envelope_by_name(&self.envelopes, &envelope_name) {
            Some(e) => e,
            None => {
                match find_envelope_by_name(&self.envelopes, &spec.envelope) {
                    Some(e) => e,
                    None => {
                        proof {
                            assert(resolved_envelope(*self) is None);
                        }
                        return Err(
                            crate::creator::ConfigError {
                                message: clone_string(&spec.envelope),
                            },
                        )
                    },
                }
            },
        };
        proof {
            assert(resolved_envelope(*self) matches Option::Some(i) && self.envelopes@[i].spec
                == *env_spec);
        }
        let envelope = match self.creator.create_envelope(env_spec) {
            Ok(e) => e,
            Err(e) => { return Err(e) },
        };
        let num_stages = spec.stages.len();
        let mut stages: Vec<crate::waveform::Stage> = Vec::new();
        let mut k: usize = 0;
        while k < num_stages
            invariant
                k <= num_stages,
                stages@.len() == k,
                num_stages == self.waveforms@[old(self).curr_waveform as int].stages@.len(),
                self == old(self),
                backend_wf(*self),
                self.curr_waveform == old(self).curr_waveform,
                forall|i: int|
                    0 <= i < stages@.len() ==> crate::waveform::stage_wf(
                        #[trigger] stages@[i],
                        self.num_buffers as nat,
                    ),
                forall|i: int|
                    0 <= i < k ==> crate::creator::stage_spec_ok(
                        #[trigger] self.waveforms@[self.curr_waveform as int].stages@[i],
                        self.creator.templates@,
                        self.creator.templates@.len() + 1,
                        self.num_buffers as nat,
                    ),
            decreases num_stages - k,
        {
            let seed = self.next_seed.wrapping_add((k as u64).wrapping_mul(0x9E37_79B9_7F4A_7C15));
            let st = match self.creator.create_stage(
                &self.waveforms[self.curr_waveform].stages[k],
                self.num_buffers,
                seed,
            ) {
                Ok(st) => st,
                Err(e) => { return Err(e) },
            };
            stages.push(st);
            k = k + 1;
        }
        self.next_seed = self.next_seed.wrapping_add(0xD1B5_4A32_D192_ED03);
        let properties = WaveformProperties::new(pitch, Fx::from_frac(velocity as i64, 127));
        let waveform = Waveform { stages, envelope, properties };
        self.messages.push(
            Message::Lifecycle { id, action: Lifecycle::Start { waveform } },
        );
        proof {
            assert(self.messages@.take(old(self).messages@.len() as int) =~= old(self).messages@);
        }
        Ok(())
    }

    /// Queues a pitch update for a held source.
    pub fn update_pitch(&mut self, id: SourceId, degree: i32, pitch: Pitch)
        requires
            backend_wf(*old(self)),
        ensures
            backend_wf(*final(self)),
            final(self).num_buffers == old(self).num_buffers,
            *final(self) == (WaveformBackend { messages: final(self).messages, ..*old(self) }),
            final(self).messages@ == old(self).messages@.push(
                Message::Lifecycle { id, action: Lifecycle::UpdatePitch { pitch } },
            ),
    {
        let _ = degree;
        self.messages.push(Message::Lifecycle { id, action: Lifecycle::UpdatePitch { pitch } });
    }

    /// Queues a pressure update for a held source.
    pub fn update_pressure(&mut self, id: SourceId, pressure: u8)
        requires
            backend_wf(*old(self)),
        ensures
            backend_wf(*final(self)),
            final(self).num_buffers == old(self).num_buffers,
            *final(self) == (WaveformBackend { messages: final(self).messages, ..*old(self) }),
            final(self).messages@ == old(self).messages@.push(
                Message::Lifecycle {
                    id,
                    action: Lifecycle::UpdatePressure {
                        pressure: Fx {
                            raw: crate::fx::clip_i64(
                                crate::fx::div_trunc(
                                    pressure * crate::fx::FX_ONE_RAW,
                                    127,
                                ),
                            ) as i64,
                        },
                    },
                },
            ),
    {
        self.messages.push(
            Message::Lifecycle {
                id,
                action: Lifecycle::UpdatePressure {
                    pressure: Fx::from_frac(pressure as i64, 127),
                },
            },
        );
    }

    /// Queues the release of a held source.
    pub fn stop(&mut self, id: SourceId, velocity: u8)
        requires
            backend_wf(*old(self)),
        ensures
            backend_wf(*final(self)),
            final(self).num_buffers == old(self).num_buffers,
            *final(self) == (WaveformBackend { messages: final(self).messages, ..*old(self) }),
            final(self).messages@ == old(self).messages@.push(
                Message::Lifecycle { id, action: Lifecycle::Stop },
            ),
    {
        let _ = velocity;
        self.messages.push(Message::Lifecycle { id, action: Lifecycle::Stop });
    }

    /// Selects the waveform with the given number, wrapping around the
    /// list.
    pub fn program_change(&mut self, number: usize)
        requires
            backend_wf(*old(self)),
        ensures
            backend_wf(*final(self)),
            final(self).num_buffers == old(self).num_buffers,
            final(self).curr_waveform == (number as int) % (old(self).waveforms@.len() as int),
    {
        self.curr_waveform = number % self.waveforms.len();
    }

    /// Routes a control-change message: pedals and expressive controllers
    /// feed the live parameters, and the damper additionally drives the
    /// release behaviour of fading voices.
    #[verifier::rlimit(100)]
    pub fn control_change(&mut self, controller: u8, value: u8)
        requires
            backend_wf(*old(self)),
        ensures
            backend_wf(*final(self)),
            final(self).num_buffers == old(self).num_buffers,
            *final(self) == (WaveformBackend { messages: final(self).messages, ..*old(self) }),
            final(self).messages@ == old(self).messages@ + cc_messages(
                old(self).cc_numbers,
                controller,
                norm7(value),
            ),
    {
        let value_fx = Fx::from_frac(value as i64, 127);
        proof {
            assert(value_fx == norm7(value));
        }
        if controller == self.cc_numbers.modulation {
            self.send_control(SynthControl::Modulation, value_fx);
        }
        if controller == self.cc_numbers.breath {
            self.send_control(SynthControl::Breath, value_fx);
        }
        if controller == self.cc_numbers.foot {
            self.send_control(SynthControl::Foot, value_fx);
        }
        if controller == self.cc_numbers.expression {
            self.send_control(SynthControl::Expression, value_fx);
        }
        if controller == self.cc_numbers.damper {
            self.messages.push(Message::DamperPedal { pressure: value_fx });
            self.send_control(SynthControl::Damper, value_fx);
        }
        if controller == self.cc_numbers.sostenuto {
            self.send_control(SynthControl::Sostenuto, value_fx);
        }
        if controller == self.cc_numbers.soft {
            self.send_control(SynthControl::SoftPedal, value_fx);
        }
        proof {
            assert(self.messages@ =~= old(self).messages@ + cc_messages(
                old(self).cc_numbers,
                controller,
                norm7(value),
            ));
        }
    }

    /// Queues a channel-pressure update.
    pub fn channel_pressure(&mut self, pressure: u8)
        requires
            backend_wf(*old(self)),
        ensures
            backend_wf(*final(self)),
            final(self).num_buffers == old(self).num_buffers,
            *final(self) == (WaveformBackend { messages: final(self).messages, ..*old(self) }),
            final(self).messages@ == old(self).messages@.push(
                ctrl_msg(SynthControl::ChannelPressure, norm7(pressure)),
            ),
    {
        self.send_control(SynthControl::ChannelPressure, Fx::from_frac(pressure as i64, 127));
    }

    /// Queues a pitch-bend change: the raw 14-bit value maps to a bend
    /// level in `[-1, 1]`.
    pub fn pitch_bend(&mut self, value: i16)
        requires
            backend_wf(*old(self)),
        ensures
            backend_wf(*final(self)),
            final(self).num_buffers == old(self).num_buffers,
            *final(self) == (WaveformBackend { messages: final(self).messages, ..*old(self) }),
            final(self).messages@ == old(self).messages@.push(
                Message::PitchBend {
                    bend_level: Fx {
                        raw: clip_i64(
                            crate::fx::div_trunc(value * FX_ONE_RAW, 8192),
                        ) as i64,
                    },
                },
            ),
    {
        let bend_level = if value >= 0 {
            Fx::from_frac(value as i64, 8192)
        } else {
            Fx::from_frac(value as i64, 8192)
        };
        self.messages.push(Message::PitchBend { bend_level });
    }

    /// Cycles the preferred envelope family.
    pub fn toggle_envelope_type(&mut self)
        requires
            backend_wf(*old(self)),
        ensures
            backend_wf(*final(self)),
            final(self).num_buffers == old(self).num_buffers,
            final(self).envelope_type == (match old(self).envelope_type {
                Option::None => Option::Some(EnvelopeType::Organ),
                Option::Some(EnvelopeType::Organ) => Option::Some(EnvelopeType::Piano),
                Option::Some(EnvelopeType::Piano) => Option::Some(EnvelopeType::Pad),
                Option::Some(EnvelopeType::Pad) => Option::Some(EnvelopeType::Bell),
                Option::Some(EnvelopeType::Bell) => Option::None,
            }),
    {
        self.envelope_type = match self.envelope_type {
            Option::None => Option::Some(EnvelopeType::Organ),
            Option::Some(EnvelopeType::Organ) => Option::Some(EnvelopeType::Piano),
            Option::Some(EnvelopeType::Piano) => Option::Some(EnvelopeType::Pad),
            Option::Some(EnvelopeType::Pad) => Option::Some(EnvelopeType::Bell),
            Option::Some(EnvelopeType::Bell) => Option::None,
        };
    }

    /// Queues one control value.
    fn send_control(&mut self, control: SynthControl, value: Fx)
        requires
            backend_wf(*old(self)),
        ensures
            backend_wf(*final(self)),
            *final(self) == (WaveformBackend {
                messages: final(self).messages,
                ..*old(self)
            }),
            final(self).messages@ == old(self).messages@.push(
                Message::Control { control, value },
            ),
    {
        self.messages.push(Message::Control { control, value });
    }
}

/// The name of a built-in envelope family.
pub open spec fn envelope_type_name(t: EnvelopeType) -> Seq<char> {
    match t {
        EnvelopeType::Organ => "Organ"@,
        EnvelopeType::Piano => "Piano"@,
        EnvelopeType::Pad => "Pad"@,
        EnvelopeType::Bell => "Bell"@,
    }
}

/// The name of a built-in envelope family.
fn envelope_type_str(t: &EnvelopeType) -> (r: &'static str)
    ensures
        r@ == envelope_type_name(*t),
{
    match t {
        EnvelopeType::Organ => "Organ",
        EnvelopeType::Piano => "Piano",
        EnvelopeType::Pad => "Pad",
        EnvelopeType::Bell => "Bell",
    }
}

/// The envelope a start resolves: the preferred family if it is
/// configured, the waveform's own envelope otherwise.
pub open spec fn resolved_envelope(b: WaveformBackend) -> Option<int> {
    let spec_name = b.waveforms@[b.curr_waveform as int].envelope@;
    let wanted = match b.envelope_type {
        Option::Some(t) => envelope_type_name(t),
        Option::None => spec_name,
    };
    match find_env(b.envelopes@, wanted) {
        Option::Some(i) => Option::Some(i),
        Option::None => find_env(b.envelopes@, spec_name),
    }
}

/// Whether a start succeeds: the envelope resolves and instantiates, and
/// every stage of the current waveform instantiates.
pub open spec fn start_ok(b: WaveformBackend) -> bool {
    let depth = b.creator.templates@.len() + 1;
    &&& (resolved_envelope(b) matches Option::Some(i) && crate::creator::envelope_spec_ok(
        b.envelopes@[i].spec,
        b.creator.templates@,
        depth,
    ))
    &&& forall|k: int|
        0 <= k < b.waveforms@[b.curr_waveform as int].stages@.len()
            ==> crate::creator::stage_spec_ok(
            #[trigger] b.waveforms@[b.curr_waveform as int].stages@[k],
            b.creator.templates@,
            depth,
            b.num_buffers as nat,
        )
}

/// Copies a string.
fn clone_string(s: &String) -> (r: String)
    ensures
        r@ == s@,
{
    s.as_str().to_owned()
}

/// The index of the first envelope with the given name.
pub open spec fn find_env(envs: Seq<NamedEnvelopeSpec>, name: Seq<char>) -> Option<int>
    decreases envs.len(),
{
    if envs.len() == 0 {
        Option::None
    } else if envs[0].name@ == name {
        Option::Some(0int)
    } else {
        match find_env(envs.skip(1), name) {
            Option::Some(i) => Option::Some(i + 1),
            Option::None => Option::None,
        }
    }
}

/// Finds a named envelope by linear search.
fn find_envelope_by_name<'a>(envelopes: &'a Vec<NamedEnvelopeSpec>, name: &String) -> (r: Option<
    &'a crate::envelope::EnvelopeSpec,
>)
    ensures
        match find_env(envelopes@, name@) {
            Option::Some(i) => r matches Some(e) && *e == envelopes@[i].spec,
            Option::None => r is None,
        },
{
    let n = envelopes.len();
    let mut i: usize = 0;
    proof {
        assert(envelopes@.skip(0) =~= envelopes@);
    }
    while i < n
        invariant
            i <= n,
            n == envelopes@.len(),
            forall|j: int| 0 <= j < i ==> (#[trigger] envelopes@[j]).name@ != name@,
            (match find_env(envelopes@.skip(i as int), name@) {
                Option::Some(j) => find_env(envelopes@, name@) == Option::Some(j + i),
                Option::None => find_env(envelopes@, name@) is None,
            }),
        decreases n - i,
    {
        if envelopes[i].name == *name {
            proof {
                lemma_find_env_skip(envelopes@, name@, i as int);
            }
            return Some(&envelopes[i].spec);
        }
        proof {
            lemma_find_env_skip_step(envelopes@, name@, i as int);
        }
        i = i + 1;
    }
    None
}

/// `find_env` on the whole sequence, at the first match.
proof fn lemma_find_env_skip(envs: Seq<NamedEnvelopeSpec>, name: Seq<char>, i: int)
    requires
        0 <= i < envs.len(),
        (match find_env(envs.skip(i), name) {
            Option::Some(j) => find_env(envs, name) == Option::Some(j + i),
            Option::None => find_env(envs, name) is None,
        }),
        envs[i].name@ == name,
    ensures
        find_env(envs, name) == Option::Some(i),
{
    assert(envs.skip(i)[0] == envs[i]);
    assert(find_env(envs.skip(i), name) == Option::Some(0int));
}

/// `find_env` steps past a non-matching head.
proof fn lemma_find_env_skip_step(envs: Seq<NamedEnvelopeSpec>, name: Seq<char>, i: int)
    requires
        0 <= i < envs.len(),
        envs[i].name@ != name,
    ensures
        find_env(envs.skip(i), name) == match find_env(envs.skip(i + 1), name) {
            Option::Some(j) => Option::Some(j + 1),
            Option::None => Option::None,
        },
{
    assert(envs.skip(i)[0] == envs[i]);
    assert(envs.skip(i).skip(1) =~= envs.skip(i + 1));
}

/// Creates the control-side and render-side halves of the synthesizer.
pub fn create(
    waveforms: Vec<WaveformSpec>,
    envelopes: Vec<NamedEnvelopeSpec>,
    creator: Creator,
    pitch_wheel_sensivity: Ratio,
    cc_numbers: ControlChangeNumbers,
    num_buffers: usize,
) -> (r: Result<(WaveformBackend, WaveformSynth), ConfigError>)
    requires
        crate::creator::creator_wf(creator),
        creator.sample_rate >= 1,
    ensures
        r is Ok <==> waveforms@.len() > 0,
        r matches Err(e) ==> e.message@ == "no waveforms configured"@,
        r matches Ok(pair) ==> {
            &&& backend_wf(pair.0)
            &&& synth_wf(pair.1)
            &&& pair.0.messages@.len() == 0
            &&& pair.0.waveforms == waveforms
            &&& pair.0.envelopes == envelopes
            &&& pair.0.creator == creator
            &&& pair.0.curr_waveform == 0
            &&& pair.0.cc_numbers == cc_numbers
            &&& pair.0.envelope_type is None
            &&& pair.0.num_buffers == num_buffers
            &&& pair.1.messages@.len() == 0
            &&& pair.1.state.playing@.len() == 0
            &&& (forall|c: SynthControl| #[trigger] storage_read(pair.1.state.storage, c) == 0)
            &&& pair.1.state.magnetron.num_buffers() == num_buffers
            &&& pair.1.state.magnetron.spec_block_len() == 0
            &&& pair.1.state.damper_pedal_pressure.raw == 0
            &&& pair.1.state.pitch_wheel_sensivity == pitch_wheel_sensivity
            &&& pair.1.state.pitch_bend.raw == 0
            &&& pair.1.state.last_id == 0
            &&& pair.1.sample_width.raw == clip_i64(
                crate::fx::div_trunc(FX_ONE_RAW as int, creator.sample_rate as int),
            )
        },
{
    let sample_rate = creator.sample_rate;
    if waveforms.len() == 0 {
        proof {
            reveal_strlit("no waveforms configured");
        }
        return Err(
            crate::creator::ConfigError { message: "no waveforms configured".to_owned() },
        );
    }
    let backend = WaveformBackend {
        messages: Vec::new(),
        waveforms,
        envelopes,
        creator,
        curr_waveform: 0,
        cc_numbers,
        envelope_type: Option::None,
        num_buffers,
        next_seed: 0x243F_6A88_85A3_08D3,
    };
    let state = SynthState {
        playing: Vec::new(),
        storage: ControlStorage::empty(),
        magnetron: Magnetron::new(num_buffers),
        damper_pedal_pressure: Fx { raw: 0 },
        pitch_wheel_sensivity,
        pitch_bend: Ratio { raw: 0 },
        last_id: 0,
    };
    let synth = WaveformSynth {
        messages: Vec::new(),
        state,
        sample_width: Fx::from_frac(1, sample_rate as i64),
    };
    Ok((backend, synth))
}

} // verus!
