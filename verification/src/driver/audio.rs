pub mod sample_queue;

use vstd::prelude::*;

use crate::driver::audio::sample_queue::{push_sample_spec, SampleQueue, MAX_SAMPLES};

verus! {

/// A sample scaled by a volume, where 255 is full volume.
pub open spec fn scaled(sample: u8, volume: u8) -> u8 {
    ((sample as int * volume as int) / 255) as u8
}

fn scale_sample(sample: u8, volume: u8) -> (r: u8)
    ensures
        r == scaled(sample, volume),
{
    assert(sample as u32 * volume as u32 <= 255 * 255) by (nonlinear_arith)
        requires
            sample <= 255,
            volume <= 255,
    ;
    ((sample as u32 * volume as u32) / 255) as u8
}

/// Splits a mono sample into a left and a right sample at the given volumes.
pub fn split_sample(sample: u8, left_volume: u8, right_volume: u8) -> (r: (u8, u8))
    ensures
        r == (scaled(sample, left_volume), scaled(sample, right_volume)),
{
    (scale_sample(sample, left_volume), scale_sample(sample, right_volume))
}

/// What queueing `samples` from index `i` on does: each sample is split by the volumes and
/// pushed as a pair, stopping at the first pair that is refused. The second component is the
/// number of samples accepted.
pub open spec fn play_from(q: Seq<u8>, samples: Seq<u8>, left_volume: u8, right_volume: u8, i: int) -> (Seq<u8>, int)
    decreases samples.len() - i,
{
    if i >= samples.len() || i < 0 {
        (q, samples.len() as int)
    } else {
        let r = push_sample_spec(q, scaled(samples[i], left_volume), scaled(samples[i], right_volume));
        if !r.1 {
            (r.0, i)
        } else {
            play_from(r.0, samples, left_volume, right_volume, i + 1)
        }
    }
}

/// What queueing samples `i ..` onto `q` does, stated pair by pair: `n` samples are taken,
/// from `i` on, each as the pair `s * left_volume / 255`, `s * right_volume / 255` appended in
/// order after what was queued; it stops early only when a pair no longer fits.
proof fn lemma_play_from_queues_pairs(q: Seq<u8>, samples: Seq<u8>, left_volume: u8, right_volume: u8, i: int)
    requires
        0 <= i <= samples.len(),
    ensures
        ({
            let (q2, n) = play_from(q, samples, left_volume, right_volume, i);
            &&& i <= n <= samples.len()
            &&& q2.len() == q.len() + 2 * (n - i)
            &&& q2.take(q.len() as int) == q
            &&& forall|k: int| i <= k < n ==> {
                &&& #[trigger] q2[q.len() + 2 * (k - i)] == (samples[k] * left_volume / 255) as u8
                &&& q2[q.len() + 2 * (k - i) + 1] == (samples[k] * right_volume / 255) as u8
            }
            &&& n < samples.len() ==> q2.len() + 2 > MAX_SAMPLES
        }),
    decreases samples.len() - i,
{
    if i < samples.len() {
        let l = scaled(samples[i], left_volume);
        let r = scaled(samples[i], right_volume);
        if q.len() + 2 <= MAX_SAMPLES {
            let q1 = q.push(l).push(r);
            lemma_play_from_queues_pairs(q1, samples, left_volume, right_volume, i + 1);
            let (q2, n) = play_from(q1, samples, left_volume, right_volume, i + 1);
            assert(q2.take(q.len() as int) =~= q) by {
                assert(q2.take(q1.len() as int) == q1);
                assert forall|t: int| 0 <= t < q.len() implies q2[t] == q[t] by {
                    assert(q2.take(q1.len() as int)[t] == q1[t]);
                }
            }
            assert(q2[q.len() as int] == l) by {
                assert(q2.take(q1.len() as int)[q.len() as int] == q1[q.len() as int]);
            }
            assert(q2[q.len() as int + 1] == r) by {
                assert(q2.take(q1.len() as int)[q.len() as int + 1] == q1[q.len() as int + 1]);
            }
            assert forall|k: int| i <= k < n implies {
                &&& #[trigger] q2[q.len() + 2 * (k - i)] == (samples[k] * left_volume / 255) as u8
                &&& q2[q.len() + 2 * (k - i) + 1] == (samples[k] * right_volume / 255) as u8
            } by {
                if k > i {
                    assert(q.len() + 2 * (k - i) == q1.len() + 2 * (k - (i + 1)));
                }
            }
        }
    }
}

/// Law: playing mono samples queues them in order, each as a left and right pair scaled by
/// its own channel's volume (`s * volume / 255`), after what was already queued; it returns
/// how many were queued, and stops early only when the next pair does not fit.
pub proof fn lemma_play_queues_scaled_pairs(q: Seq<u8>, samples: Seq<u8>, left_volume: u8, right_volume: u8)
    ensures
        ({
            let (q2, n) = play_from(q, samples, left_volume, right_volume, 0);
            &&& 0 <= n <= samples.len()
            &&& q2.len() == q.len() + 2 * n
            &&& q2.take(q.len() as int) == q
            &&& forall|k: int| 0 <= k < n ==> {
                &&& #[trigger] q2[q.len() + 2 * k] == (samples[k] * left_volume / 255) as u8
                &&& q2[q.len() + 2 * k + 1] == (samples[k] * right_volume / 255) as u8
            }
            &&& n < samples.len() ==> q2.len() + 2 > MAX_SAMPLES
        }),
{
    lemma_play_from_queues_pairs(q, samples, left_volume, right_volume, 0);
    let (q2, n) = play_from(q, samples, left_volume, right_volume, 0);
    assert forall|k: int| 0 <= k < n implies {
        &&& #[trigger] q2[q.len() + 2 * k] == (samples[k] * left_volume / 255) as u8
        &&& q2[q.len() + 2 * k + 1] == (samples[k] * right_volume / 255) as u8
    } by {
        assert(q2[q.len() + 2 * (k - 0)] == (samples[k] * left_volume / 255) as u8);
    }
}

impl SampleQueue {
    /// Queues mono samples as stereo pairs at the given volumes.
    /// Returns how many samples were queued before the queue refused one.
    pub fn play(&mut self, samples: &[u8], left_volume: u8, right_volume: u8) -> (n: usize)
        requires
            old(self).wf(),
        ensures
            final(self).wf(),
            (final(self)@, n as int) == play_from(old(self)@, samples@, left_volume, right_volume, 0),
    {
        let ghost target = play_from(old(self)@, samples@, left_volume, right_volume, 0);
        let mut i: usize = 0;
        while i < samples.len()
            invariant
                self.wf(),
                i <= samples@.len(),
                play_from(self@, samples@, left_volume, right_volume, i as int) == target,
                target == play_from(old(self)@, samples@, left_volume, right_volume, 0),
            decreases samples@.len() - i,
        {
            let (left, right) = split_sample(samples[i], left_volume, right_volume);
            let ghost pre_q = self@;
            if !self.push_sample(left, right) {
                assert(play_from(pre_q, samples@, left_volume, right_volume, i as int) == (self@, i as int));
                return i;
            }
            i = i + 1;
        }
        samples.len()
    }
}

} // verus!
