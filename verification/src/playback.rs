use vstd::prelude::*;

use crate::errors::PipelineError;

verus! {

/// What one callback round of size `c` does to a buffer holding `samples`
/// with completion flag `finished`: a buffer too short to satisfy the request
/// is cleared and the flag set; otherwise exactly the first `c` samples leave
/// the front and the flag is untouched.
pub open spec fn drain_step<S>(samples: Seq<S>, finished: bool, c: int) -> (Seq<S>, bool) {
    if samples.len() < c {
        (Seq::<S>::empty(), true)
    } else {
        (samples.skip(c), finished)
    }
}

/// The buffer state after `k` callback rounds of size `c`.
pub open spec fn drain_steps<S>(samples: Seq<S>, finished: bool, c: int, k: nat) -> (Seq<S>, bool)
    decreases k,
{
    if k == 0 {
        (samples, finished)
    } else {
        let prev = drain_steps(samples, finished, c, (k - 1) as nat);
        drain_step(prev.0, prev.1, c)
    }
}

/// The device-ready interleaved samples, consumed destructively from the
/// front by the output callback. Once a request cannot be met in full, the
/// buffer empties itself and the completion flag is set, and it stays set.
pub struct PlaybackBuffer<S> {
    /// The samples not yet handed to the device, in playback order.
    pub samples: Vec<S>,
    /// The channel count of the stream; requests must be multiples of it.
    pub channels: usize,
    /// True from the first request the buffer could not satisfy in full.
    pub finished: bool,
}

impl<S: Copy> PlaybackBuffer<S> {
    /// There is at least one channel.
    pub open spec fn wf(self) -> bool {
        self.channels >= 1
    }

    /// A buffer holding the whole converted stream, not yet started.
    pub fn new(samples: Vec<S>, channels: usize) -> (r: Self)
        requires
            channels >= 1,
        ensures
            r.wf(),
            r.samples == samples,
            r.channels == channels,
            !r.finished,
    {
        PlaybackBuffer { samples, channels, finished: false }
    }

    /// One callback round: the device asks for `requested` samples. A request
    /// that is not a multiple of the channel count is refused as irregular
    /// and changes nothing. A request larger than what remains clears the
    /// buffer, sets the completion flag, and hands nothing back — the device
    /// keeps its stale contents for that final round. Otherwise exactly the
    /// first `requested` samples are removed and returned, in order.
    pub fn request(&mut self, requested: usize) -> (r: Result<Option<Vec<S>>, PipelineError>)
        requires
            old(self).wf(),
        ensures
            final(self).wf(),
            final(self).channels == old(self).channels,
            requested % old(self).channels != 0 ==> r == Err::<Option<Vec<S>>, PipelineError>(
                PipelineError::IrregularChunkSize,
            ) && *final(self) == *old(self),
            requested % old(self).channels == 0 ==> {
                &&& (final(self).samples@, final(self).finished) == drain_step(
                    old(self).samples@,
                    old(self).finished,
                    requested as int,
                )
                &&& (old(self).samples@.len() < requested ==> r == Ok::<
                    Option<Vec<S>>,
                    PipelineError,
                >(None))
                &&& (old(self).samples@.len() >= requested ==> match r {
                    Result::Ok(o) => match o {
                        Option::Some(chunk) => chunk@ == old(self).samples@.take(requested as int),
                        Option::None => false,
                    },
                    Result::Err(_) => false,
                })
            },
    {
        if requested % self.channels != 0 {
            return Err(PipelineError::IrregularChunkSize);
        }
        if self.samples.len() < requested {
            self.samples.clear();
            self.finished = true;
            return Ok(None);
        }
        let mut rest = self.samples.split_off(requested);
        core::mem::swap(&mut self.samples, &mut rest);
        proof {
            assert(rest@ =~= old(self).samples@.take(requested as int));
            assert(self.samples@ =~= old(self).samples@.skip(requested as int));
        }
        Ok(Some(rest))
    }

    /// How many samples are still buffered.
    pub fn remaining(&self) -> (l: usize)
        ensures
            l == self.samples@.len(),
    {
        self.samples.len()
    }

    /// Whether the completion flag is set.
    pub fn is_finished(&self) -> (b: bool)
        ensures
            b == self.finished,
    {
        self.finished
    }
}

/// After `k` full-size rounds the buffer still holds everything past the
/// first `k * c` samples and the flag is untouched.
proof fn lemma_drain_steps_full<S>(samples: Seq<S>, finished: bool, c: int, k: nat)
    requires
        c >= 1,
        k * c <= samples.len(),
    ensures
        drain_steps(samples, finished, c, k).1 == finished,
        drain_steps(samples, finished, c, k).0 == samples.skip(k * c),
    decreases k,
{
    if k == 0 {
        assert(samples.skip(0) =~= samples);
    } else {
        assert((k - 1) * c == k * c - c) by (nonlinear_arith);
        lemma_drain_steps_full(samples, finished, c, (k - 1) as nat);
        let prev = drain_steps(samples, finished, c, (k - 1) as nat);
        assert(prev.0.len() == samples.len() - (k - 1) * c);
        assert(prev.0.len() >= c);
        assert(prev.0.skip(c) =~= samples.skip(k * c));
    }
}

/// Law: a playback buffer of length `n * c + r` with `0 <= r < c` and the
/// flag clear survives `n` full rounds of size `c` with the flag still clear
/// — completion is never reported while a full round remains — and every
/// later round leaves the buffer empty with the flag set: the flag moves to
/// true exactly once, on round `n + 1`, when the buffer cannot satisfy the
/// request.
pub proof fn lemma_drain_completes_once<S>(samples: Seq<S>, c: int, n: nat)
    requires
        c >= 1,
        n * c <= samples.len(),
        samples.len() < (n + 1) * c,
    ensures
        forall|k: nat| k <= n ==> !(#[trigger] drain_steps(samples, false, c, k)).1,
        forall|k: nat| k <= n ==> drain_steps(samples, false, c, k).0.len() == samples.len() - k
            * c,
        forall|k: nat| k > n ==> (#[trigger] drain_steps(samples, false, c, k)).1,
        forall|k: nat| k > n ==> drain_steps(samples, false, c, k).0.len() == 0,
{
    assert forall|k: nat| k <= n implies !(#[trigger] drain_steps(samples, false, c, k)).1
        && drain_steps(samples, false, c, k).0.len() == samples.len() - k * c by {
        assert(k * c <= n * c) by (nonlinear_arith)
            requires
                k <= n,
                c >= 1,
        ;
        lemma_drain_steps_full(samples, false, c, k);
    }
    assert forall|k: nat| k > n implies (#[trigger] drain_steps(samples, false, c, k)).1
        && drain_steps(samples, false, c, k).0.len() == 0 by {
        lemma_drain_steps_finished(samples, c, n, k);
    }
}

/// Every round past the first unsatisfiable one sees an empty buffer and the
/// flag set.
proof fn lemma_drain_steps_finished<S>(samples: Seq<S>, c: int, n: nat, k: nat)
    requires
        c >= 1,
        n * c <= samples.len(),
        samples.len() < (n + 1) * c,
        k > n,
    ensures
        drain_steps(samples, false, c, k).1,
        drain_steps(samples, false, c, k).0.len() == 0,
    decreases k,
{
    if k == n + 1 {
        lemma_drain_steps_full(samples, false, c, n);
        let prev = drain_steps(samples, false, c, n);
        assert((n + 1) * c == n * c + c) by (nonlinear_arith);
        assert(prev.0.len() < c);
    } else {
        lemma_drain_steps_finished(samples, c, n, (k - 1) as nat);
    }
}

} // verus!
