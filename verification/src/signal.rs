//! Signal stage: per-sample pseudo-random noise.

use vstd::prelude::*;

use crate::buffer::{Magnetron, OutBufferSpec};
use crate::fx::{clip_i64, fx_mul, Fx};
use crate::oscillator::{dest_at, in_samples};
use crate::source::{av_states, av_value, av_wf, ctx_wf, next, AutomatedValue, LfSource, RenderContext};

verus! {

/// The signal flavors.
#[derive(Clone, Copy, PartialEq, Eq, Structural, Debug)]
pub enum SignalKind {
    /// Uniform pseudo-random noise in `[-1, 1)`.
    Noise,
}

/// Specification of one signal stage.
pub struct SignalSpec {
    pub kind: SignalKind,
    pub out_spec: crate::waveform::OutSpec,
}

/// A live signal stage with its per-voice random state.
pub struct SignalStage {
    pub kind: SignalKind,
    pub out_buffer: OutBufferSpec,
    pub out_level: AutomatedValue,
    pub states: Vec<u64>,
    pub rng: u64,
}

/// One step of the xorshift64* generator.
pub open spec fn rng_next(x: u64) -> u64 {
    let a = x ^ (x >> 12u64);
    let b = a ^ (a << 25u64);
    let c = b ^ (b >> 27u64);
    (((c as int) * 0x2545_F491_4F6C_DD1D) % 0x1_0000_0000_0000_0000) as u64
}

/// The generator state before sample `i`.
pub open spec fn rng_at(seed: u64, i: nat) -> u64
    decreases i,
{
    if i == 0 {
        seed
    } else {
        rng_next(rng_at(seed, (i - 1) as nat))
    }
}

/// The noise sample drawn from a generator state: uniform raw values in
/// `[-2^32, 2^32)`.
pub open spec fn noise_sample(x: u64) -> int {
    (rng_next(x) % 0x2_0000_0000) - 0x1_0000_0000
}

/// Executes one generator step.
fn rng_step(x: u64) -> (r: u64)
    ensures
        r == rng_next(x),
{
    let a = x ^ (x >> 12u64);
    let b = a ^ (a << 25u64);
    let c = b ^ (b >> 27u64);
    c.wrapping_mul(0x2545_F491_4F6C_DD1D)
}

/// Well-formedness of a live signal stage.
pub open spec fn sig_wf(s: SignalStage, num_buffers: nat) -> bool {
    &&& av_wf(s.out_level, s.states@.len())
    &&& (s.out_buffer matches OutBufferSpec::Buffer(j) ==> j < num_buffers)
}


/// The exact block-render relation of a signal stage.
pub open spec fn sig_render_rel(
    pre: SignalStage,
    post: SignalStage,
    p0: Magnetron,
    p1: Magnetron,
    ctx: RenderContext,
) -> bool {
    let lvl = av_value(pre.out_level, pre.states@, ctx);
    let st1 = av_states(pre.out_level, pre.states@, ctx);
    let n = p0.spec_block_len();
    &&& p1.wf()
    &&& p1.num_buffers() == p0.num_buffers()
    &&& p1.spec_block_len() == p0.spec_block_len()
    &&& p1.audio_in_view() == p0.audio_in_view()
    &&& p1.total_view() == p0.total_view()
    &&& post.kind == pre.kind
    &&& post.out_buffer == pre.out_buffer
    &&& post.out_level == pre.out_level
    &&& post.states@ == st1
    &&& post.rng == rng_at(pre.rng, n)
    &&& forall|i: int|
        0 <= i < n ==> #[trigger] dest_at(p1, pre.out_buffer)[i] == clip_i64(
            dest_at(p0, pre.out_buffer)[i] + fx_mul(lvl, noise_sample(rng_at(pre.rng, i as nat))),
        )
    &&& forall|j: int|
        0 <= j < p0.num_buffers() && !(pre.out_buffer matches OutBufferSpec::Buffer(k) && k == j)
            ==> #[trigger] p1.buffer_at(j) == p0.buffer_at(j)
    &&& (pre.out_buffer matches OutBufferSpec::Buffer(_) ==> p1.voice_out_view()
        == p0.voice_out_view())
}

impl SignalStage {
    /// Renders one block of noise into the destination.
    pub fn render(self, pool: &mut Magnetron, ctx: &RenderContext) -> (r: SignalStage)
        requires
            old(pool).wf(),
            sig_wf(self, old(pool).num_buffers()),
            ctx_wf(*ctx),
        ensures
            sig_wf(r, final(pool).num_buffers()),
            sig_render_rel(self, r, *old(pool), *final(pool), *ctx),
    {
        let SignalStage { kind, out_buffer, out_level, mut states, mut rng } = self;
        let lvl = next(&out_level, &mut states, ctx);
        let n = pool.len();
        let mut i: usize = 0;
        while i < n
            invariant
                pool.wf(),
                n == pool.spec_block_len(),
                i <= n,
                pool.num_buffers() == old(pool).num_buffers(),
                pool.audio_in_view() == old(pool).audio_in_view(),
                pool.total_view() == old(pool).total_view(),
                (out_buffer matches OutBufferSpec::Buffer(j) ==> j < pool.num_buffers()),
                rng == rng_at(self.rng, i as nat),
                forall|k: int|
                    0 <= k < i ==> #[trigger] dest_at(*pool, out_buffer)[k] == clip_i64(
                        dest_at(*old(pool), out_buffer)[k] + fx_mul(
                            lvl.raw as int,
                            noise_sample(rng_at(self.rng, k as nat)),
                        ),
                    ),
                forall|k: int|
                    i <= k < n ==> #[trigger] dest_at(*pool, out_buffer)[k] == dest_at(
                        *old(pool),
                        out_buffer,
                    )[k],
                forall|j: int|
                    0 <= j < pool.num_buffers() && !(out_buffer matches OutBufferSpec::Buffer(k)
                        && k == j) ==> #[trigger] pool.buffer_at(j) == old(pool).buffer_at(j),
                (out_buffer matches OutBufferSpec::Buffer(_) ==> pool.voice_out_view() == old(
                    pool,
                ).voice_out_view()),
            decreases n - i,
        {
            let step = rng_step(rng);
            let sample = Fx { raw: (step % 0x2_0000_0000) as i64 - 0x1_0000_0000 };
            proof {
                assert(sample.raw == noise_sample(rng_at(self.rng, i as nat)));
            }
            rng = step;
            let ghost pool_before = *pool;
            pool.add(out_buffer, i, lvl.mul(sample));
            proof {
                assert(dest_at(*pool, out_buffer) == dest_at(pool_before, out_buffer).update(
                    i as int,
                    clip_i64(
                        dest_at(pool_before, out_buffer)[i as int] + fx_mul(
                            lvl.raw as int,
                            noise_sample(rng_at(self.rng, i as nat)),
                        ),
                    ) as i64,
                ));
            }
            i = i + 1;
        }
        SignalStage { kind, out_buffer, out_level, states, rng }
    }
}

} // verus!
