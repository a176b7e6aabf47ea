//! The buffer pool shared by all stages of a voice during one block.
//!
//! A [`Magnetron`] owns a fixed set of named mono buffers, a per-voice
//! `voice_out` buffer that the final stage of each voice targets, a `total`
//! mixdown buffer accumulated across voices, and the block of `audio_in`
//! samples handed in by the host.  All samples are raw Q32.32 fixed-point
//! values.  Stages add into their destination rather than overwriting it,
//! so several stages can sum into the same buffer.

use vstd::prelude::*;

use crate::fx::{clip_i64, Fx};

verus! {

/// A source buffer selector: a named pool buffer or the audio-in block.
#[derive(Clone, Copy, PartialEq, Eq, Structural, Debug)]
pub enum InBufferSpec {
    /// The pool buffer with the given index.
    Buffer(usize),
    /// The audio-in block.
    AudioIn,
}

/// A destination buffer selector: a named pool buffer or the voice output.
#[derive(Clone, Copy, PartialEq, Eq, Structural, Debug)]
pub enum OutBufferSpec {
    /// The pool buffer with the given index.
    Buffer(usize),
    /// The voice output, scaled by the envelope and mixed into the total.
    AudioOut,
}

impl OutBufferSpec {
    /// The voice-output selector.
    pub fn audio_out() -> (r: OutBufferSpec)
        ensures
            r == OutBufferSpec::AudioOut,
    {
        OutBufferSpec::AudioOut
    }
}

/// The buffer pool.
pub struct Magnetron {
    pub buffers: Vec<Vec<i64>>,
    pub voice_out: Vec<i64>,
    pub total: Vec<i64>,
    pub audio_in: Vec<i64>,
    pub block_len: usize,
}

impl Magnetron {
    /// Number of named pool buffers.
    pub open spec fn num_buffers(self) -> nat {
        self.buffers@.len()
    }

    /// The current block length.
    pub open spec fn spec_block_len(self) -> nat {
        self.block_len as nat
    }

    /// Well-formedness: every buffer holds exactly one block of samples,
    /// and a block is at most 2^20 samples.
    pub open spec fn wf(self) -> bool {
        &&& self.block_len <= 0x10_0000
        &&& forall|j: int|
            0 <= j < self.buffers@.len() ==> (#[trigger] self.buffers@[j])@.len()
                == self.block_len
        &&& self.voice_out@.len() == self.block_len
        &&& self.total@.len() == self.block_len
        &&& self.audio_in@.len() == self.block_len
    }

    /// The contents of a named buffer.
    pub open spec fn buffer_at(self, j: int) -> Seq<i64> {
        self.buffers@[j]@
    }

    /// The contents of the voice-output buffer.
    pub open spec fn voice_out_view(self) -> Seq<i64> {
        self.voice_out@
    }

    /// The contents of the mixdown buffer.
    pub open spec fn total_view(self) -> Seq<i64> {
        self.total@
    }

    /// The contents of the audio-in block.
    pub open spec fn audio_in_view(self) -> Seq<i64> {
        self.audio_in@
    }

    /// Creates a pool with `num_buffers` named buffers, all sized to a block
    /// length of 0 until the first [`Magnetron::clear`].
    pub fn new(num_buffers: usize) -> (r: Magnetron)
        ensures
            r.wf(),
            r.num_buffers() == num_buffers,
            r.spec_block_len() == 0,
    {
        let mut buffers: Vec<Vec<i64>> = Vec::new();
        let mut i: usize = 0;
        while i < num_buffers
            invariant
                i <= num_buffers,
                buffers@.len() == i,
                forall|j: int| 0 <= j < i ==> (#[trigger] buffers@[j])@.len() == 0,
            decreases num_buffers - i,
        {
            buffers.push(Vec::new());
            i = i + 1;
        }
        Magnetron {
            buffers,
            voice_out: Vec::new(),
            total: Vec::new(),
            audio_in: Vec::new(),
            block_len: 0,
        }
    }

    /// Resizes every buffer to `block_len` samples and zeroes them all,
    /// including the mixdown and the audio-in block.
    pub fn clear(&mut self, block_len: usize)
        requires
            old(self).wf(),
            block_len <= 0x10_0000,
        ensures
            final(self).wf(),
            final(self).num_buffers() == old(self).num_buffers(),
            final(self).spec_block_len() == block_len,
            forall|j: int, i: int|
                0 <= j < final(self).num_buffers() && 0 <= i < block_len ==> #[trigger] final(self).buffer_at(
                    j,
                )[i] == 0,
            forall|i: int| 0 <= i < block_len ==> final(self).voice_out_view()[i] == 0,
            forall|i: int| 0 <= i < block_len ==> final(self).total_view()[i] == 0,
            forall|i: int| 0 <= i < block_len ==> final(self).audio_in_view()[i] == 0,
    {
        let n = self.buffers.len();
        let mut j: usize = 0;
        while j < n
            invariant
                old(self).wf(),
                j <= n,
                n == self.buffers@.len(),
                self.voice_out == old(self).voice_out,
                self.total == old(self).total,
                self.audio_in == old(self).audio_in,
                self.block_len == old(self).block_len,
                forall|k: int|
                    0 <= k < j ==> (#[trigger] self.buffers@[k])@ == Seq::<i64>::empty().add(
                        zero_block(block_len as nat),
                    ),
                forall|k: int| j <= k < n ==> self.buffers@[k] == old(self).buffers@[k],
            decreases n - j,
        {
            let buf = zeroed(block_len);
            self.buffers.set(j, buf);
            proof {
                assert(Seq::<i64>::empty().add(zero_block(block_len as nat)) =~= zero_block(
                    block_len as nat,
                ));
            }
            j = j + 1;
        }
        self.voice_out = zeroed(block_len);
        self.total = zeroed(block_len);
        self.audio_in = zeroed(block_len);
        self.block_len = block_len;
        proof {
            assert forall|k: int| 0 <= k < n implies (#[trigger] self.buffers@[k])@ == zero_block(
                block_len as nat,
            ) by {
                assert(Seq::<i64>::empty().add(zero_block(block_len as nat)) =~= zero_block(
                    block_len as nat,
                ));
            }
        }
    }

    /// Clears the named buffers and the voice output for the next voice,
    /// leaving the mixdown and the audio-in block untouched.
    pub fn clear_voice(&mut self)
        requires
            old(self).wf(),
        ensures
            final(self).wf(),
            final(self).num_buffers() == old(self).num_buffers(),
            final(self).spec_block_len() == old(self).spec_block_len(),
            final(self).total_view() == old(self).total_view(),
            final(self).audio_in_view() == old(self).audio_in_view(),
            forall|j: int, i: int|
                0 <= j < final(self).num_buffers() && 0 <= i < final(self).spec_block_len()
                    ==> #[trigger] final(self).buffer_at(j)[i] == 0,
            forall|i: int| 0 <= i < final(self).spec_block_len() ==> final(self).voice_out_view()[i] == 0,
    {
        let n = self.buffers.len();
        let block_len = self.block_len;
        let mut j: usize = 0;
        while j < n
            invariant
                old(self).wf(),
                j <= n,
                block_len == old(self).block_len,
                n == self.buffers@.len(),
                self.voice_out == old(self).voice_out,
                self.total == old(self).total,
                self.audio_in == old(self).audio_in,
                self.block_len == old(self).block_len,
                forall|k: int|
                    0 <= k < j ==> (#[trigger] self.buffers@[k])@ == zero_block(block_len as nat),
                forall|k: int| j <= k < n ==> self.buffers@[k] == old(self).buffers@[k],
            decreases n - j,
        {
            let buf = zeroed(block_len);
            self.buffers.set(j, buf);
            j = j + 1;
        }
        self.voice_out = zeroed(block_len);
    }

    /// The block length.
    pub fn len(&self) -> (r: usize)
        ensures
            r == self.spec_block_len(),
    {
        self.block_len
    }

    /// Hands the host's audio-in samples to the pool; missing samples stay
    /// zero and extra samples are dropped.
    pub fn set_audio_in(&mut self, samples: &Vec<i64>)
        requires
            old(self).wf(),
        ensures
            final(self).wf(),
            final(self).num_buffers() == old(self).num_buffers(),
            final(self).spec_block_len() == old(self).spec_block_len(),
            final(self).total_view() == old(self).total_view(),
            final(self).voice_out_view() == old(self).voice_out_view(),
            forall|j: int|
                0 <= j < final(self).num_buffers() ==> #[trigger] final(self).buffer_at(j) == old(
                    self,
                ).buffer_at(j),
            forall|i: int|
                0 <= i < final(self).spec_block_len() ==> final(self).audio_in_view()[i] == (if i
                    < samples@.len() {
                    samples@[i]
                } else {
                    old(self).audio_in_view()[i]
                }),
    {
        let mut i: usize = 0;
        let n = if samples.len() < self.block_len {
            samples.len()
        } else {
            self.block_len
        };
        while i < n
            invariant
                old(self).wf(),
                n <= samples@.len(),
                n <= old(self).block_len,
                i <= n,
                self.buffers == old(self).buffers,
                self.voice_out == old(self).voice_out,
                self.total == old(self).total,
                self.block_len == old(self).block_len,
                self.audio_in@.len() == old(self).audio_in@.len(),
                forall|k: int| 0 <= k < i ==> self.audio_in@[k] == samples@[k],
                forall|k: int|
                    i <= k < self.audio_in@.len() ==> self.audio_in@[k] == old(self).audio_in@[k],
            decreases n - i,
        {
            let v = samples[i];
            self.audio_in.set(i, v);
            i = i + 1;
        }
    }

    /// Reads one sample from a source buffer.
    pub fn read(&self, sel: InBufferSpec, i: usize) -> (r: Fx)
        requires
            self.wf(),
            i < self.spec_block_len(),
            sel matches InBufferSpec::Buffer(j) ==> j < self.num_buffers(),
        ensures
            r.raw == match sel {
                InBufferSpec::Buffer(j) => self.buffer_at(j as int)[i as int],
                InBufferSpec::AudioIn => self.audio_in_view()[i as int],
            },
    {
        match sel {
            InBufferSpec::Buffer(j) => Fx { raw: self.buffers[j][i] },
            InBufferSpec::AudioIn => Fx { raw: self.audio_in[i] },
        }
    }

    /// Adds one sample into a destination buffer, saturating.
    pub fn add(&mut self, sel: OutBufferSpec, i: usize, v: Fx)
        requires
            old(self).wf(),
            i < old(self).spec_block_len(),
            sel matches OutBufferSpec::Buffer(j) ==> j < old(self).num_buffers(),
        ensures
            final(self).wf(),
            final(self).num_buffers() == old(self).num_buffers(),
            final(self).spec_block_len() == old(self).spec_block_len(),
            final(self).audio_in_view() == old(self).audio_in_view(),
            final(self).total_view() == old(self).total_view(),
            match sel {
                OutBufferSpec::Buffer(j) => {
                    &&& final(self).buffer_at(j as int) == old(self).buffer_at(j as int).update(
                        i as int,
                        clip_i64(old(self).buffer_at(j as int)[i as int] + v.raw) as i64,
                    )
                    &&& final(self).voice_out_view() == old(self).voice_out_view()
                    &&& forall|k: int|
                        0 <= k < final(self).num_buffers() && k != j ==> #[trigger] final(self).buffer_at(k)
                            == old(self).buffer_at(k)
                },
                OutBufferSpec::AudioOut => {
                    &&& final(self).voice_out_view() == old(self).voice_out_view().update(
                        i as int,
                        clip_i64(old(self).voice_out_view()[i as int] + v.raw) as i64,
                    )
                    &&& forall|k: int|
                        0 <= k < final(self).num_buffers() ==> #[trigger] final(self).buffer_at(k) == old(
                            self,
                        ).buffer_at(k)
                },
            },
    {
        match sel {
            OutBufferSpec::Buffer(j) => {
                let cur = self.buffers[j][i];
                let nv = crate::fx::clip_i128_exec(cur as i128 + v.raw as i128);
                let mut buf = self.buffers.remove(j);
                buf.set(i, nv);
                self.buffers.insert(j, buf);
                proof {
                    assert(self.buffers@ =~= old(self).buffers@.update(
                        j as int,
                        self.buffers@[j as int],
                    ));
                }
            },
            OutBufferSpec::AudioOut => {
                let cur = self.voice_out[i];
                let nv = crate::fx::clip_i128_exec(cur as i128 + v.raw as i128);
                self.voice_out.set(i, nv);
            },
        }
    }

    /// Adds the voice output, scaled by `amp`, into the mixdown, and
    /// returns the peak magnitude of the voice output.
    pub fn mix_voice(&mut self, amp: Fx) -> (peak: Fx)
        requires
            old(self).wf(),
        ensures
            final(self).wf(),
            final(self).num_buffers() == old(self).num_buffers(),
            final(self).spec_block_len() == old(self).spec_block_len(),
            final(self).audio_in_view() == old(self).audio_in_view(),
            final(self).voice_out_view() == old(self).voice_out_view(),
            forall|j: int|
                0 <= j < final(self).num_buffers() ==> #[trigger] final(self).buffer_at(j) == old(
                    self,
                ).buffer_at(j),
            forall|i: int|
                0 <= i < final(self).spec_block_len() ==> final(self).total_view()[i] == clip_i64(
                    old(self).total_view()[i] + clip_i64(
                        crate::fx::div_trunc(
                            final(self).voice_out_view()[i] * amp.raw,
                            crate::fx::FX_ONE_RAW as int,
                        ),
                    ),
                ),
            peak.raw >= 0,
            peak.raw == seq_peak(final(self).voice_out_view(), final(self).spec_block_len()),
    {
        let mut peak = Fx { raw: 0 };
        let mut i: usize = 0;
        let n = self.block_len;
        while i < n
            invariant
                old(self).wf(),
                i <= n,
                n == self.block_len,
                self.buffers == old(self).buffers,
                self.voice_out == old(self).voice_out,
                self.audio_in == old(self).audio_in,
                self.block_len == old(self).block_len,
                self.total@.len() == old(self).total@.len(),
                peak.raw >= 0,
                peak.raw == seq_peak(self.voice_out@, i as nat),
                forall|k: int|
                    0 <= k < i ==> self.total@[k] == clip_i64(
                        old(self).total@[k] + clip_i64(
                            crate::fx::div_trunc(
                                self.voice_out@[k] * amp.raw,
                                crate::fx::FX_ONE_RAW as int,
                            ),
                        ),
                    ),
                forall|k: int| i <= k < n ==> self.total@[k] == old(self).total@[k],
            decreases n - i,
        {
            let s = Fx { raw: self.voice_out[i] };
            let scaled = s.mul(amp);
            let cur = self.total[i];
            let nv = crate::fx::clip_i128_exec(cur as i128 + scaled.raw as i128);
            self.total.set(i, nv);
            let mag = s.abs();
            if peak.lt(mag) {
                peak = mag;
            }
            i = i + 1;
        }
        peak
    }

    /// Borrows the mixdown buffer.
    pub fn total(&self) -> (r: &Vec<i64>)
        ensures
            r@ == self.total_view(),
    {
        &self.total
    }
}

/// The peak magnitude of the first `n` samples of a block.
pub open spec fn seq_peak(s: Seq<i64>, n: nat) -> int
    decreases n,
{
    if n == 0 {
        0
    } else {
        let p = seq_peak(s, (n - 1) as nat);
        let m = clip_i64(
            if s[n - 1] < 0 {
                -(s[n - 1] as int)
            } else {
                s[n - 1] as int
            },
        );
        if m > p {
            m
        } else {
            p
        }
    }
}

/// A block of zero samples.
pub open spec fn zero_block(n: nat) -> Seq<i64> {
    Seq::new(n, |i: int| 0i64)
}

/// Allocates a zeroed sample block.
fn zeroed(n: usize) -> (r: Vec<i64>)
    ensures
        r@ == zero_block(n as nat),
{
    let mut v: Vec<i64> = Vec::new();
    let mut i: usize = 0;
    while i < n
        invariant
            i <= n,
            v@.len() == i,
            forall|k: int| 0 <= k < i ==> v@[k] == 0,
        decreases n - i,
    {
        v.push(0);
        i = i + 1;
    }
    proof {
        assert(v@ =~= zero_block(n as nat));
    }
    v
}

} // verus!
