use vstd::prelude::*;

use crate::channels::ChannelSet;

verus! {

/// The first `frames` sample instants of `chans`, interleaved back into one
/// flat sequence: instant `f` contributes `chans[0][f], chans[1][f], ...` in
/// channel order, instants in ascending order.
pub open spec fn interleaved_of<S>(chans: Seq<Seq<S>>, frames: int) -> Seq<S>
    decreases frames,
{
    if frames <= 0 {
        Seq::empty()
    } else {
        interleaved_of(chans, frames - 1) + Seq::new(
            chans.len(),
            |c: int| chans[c][frames - 1],
        )
    }
}

/// Orchestrates block-based rate conversion: it hands the converter
/// fixed-size blocks taken from the front of the decoded channels, at the end
/// one final partial block, and gathers the converter's output interleaved.
/// The conversion itself happens outside; this driver guarantees that every
/// pending sample is handed over exactly once, in order, and that every valid
/// output frame is kept exactly once, in order.
pub struct ConversionDriver<S> {
    /// Decoded samples not yet handed to the converter, one queue per channel.
    pub pending: ChannelSet<S>,
    /// The interleaved converter output gathered so far.
    pub produced: Vec<S>,
    /// True once the final partial block was taken; nothing may follow it.
    pub flushed: bool,
    /// The samples already handed to the converter, per channel, in order.
    pub taken: Ghost<Seq<Seq<S>>>,
    /// The samples the driver started with, per channel.
    pub source: Ghost<Seq<Seq<S>>>,
}

impl<S: Copy> ConversionDriver<S> {
    /// Channels are non-empty and consistent, and what was taken plus what is
    /// pending is exactly what the driver started with, channel by channel.
    pub open spec fn wf(self) -> bool {
        &&& self.pending.wf()
        &&& self.pending@.len() >= 1
        &&& self.taken@.len() == self.pending@.len()
        &&& self.source@.len() == self.pending@.len()
        &&& forall|c: int| 0 <= c < self.taken@.len() ==> (#[trigger] self.taken@[c]).len()
            == self.taken@[0].len()
        &&& forall|c: int| 0 <= c < self.source@.len() ==> #[trigger] self.source@[c]
            == self.taken@[c] + self.pending@[c]
        &&& self.flushed ==> self.pending@[0].len() == 0
    }

    /// The number of channels driven.
    pub open spec fn channels(self) -> nat {
        self.pending@.len()
    }

    /// How many samples per channel still await conversion.
    pub open spec fn remaining(self) -> nat {
        self.pending@[0].len()
    }

    /// A driver over freshly decoded channels: nothing taken, nothing
    /// produced, not flushed.
    pub fn new(pending: ChannelSet<S>) -> (r: Self)
        requires
            pending.wf(),
            pending@.len() >= 1,
        ensures
            r.wf(),
            !r.flushed,
            r.pending == pending,
            r.produced@ == Seq::<S>::empty(),
            r.source@ == pending@,
            forall|c: int| 0 <= c < pending@.len() ==> #[trigger] r.taken@[c]
                == Seq::<S>::empty(),
    {
        let ghost n = pending@.len();
        let r = ConversionDriver {
            pending,
            produced: Vec::new(),
            flushed: false,
            taken: Ghost(Seq::new(n, |c: int| Seq::<S>::empty())),
            source: Ghost(pending@),
        };
        proof {
            assert forall|c: int| 0 <= c < r.source@.len() implies #[trigger] r.source@[c]
                == r.taken@[c] + r.pending@[c] by {
                assert(r.taken@[c] + r.pending@[c] =~= r.pending@[c]);
            }
        }
        r
    }

    /// Takes the next full input block of `required` samples per channel, in
    /// order, from the front of the pending queues — but only when every
    /// channel still holds at least `required` samples; otherwise it takes
    /// nothing and leaves the driver unchanged, and the remainder is left for
    /// the final partial block.
    pub fn next_block(&mut self, required: usize) -> (r: Option<Vec<Vec<S>>>)
        requires
            old(self).wf(),
            !old(self).flushed,
        ensures
            final(self).wf(),
            !final(self).flushed,
            final(self).channels() == old(self).channels(),
            final(self).source == old(self).source,
            final(self).produced == old(self).produced,
            r is Some <==> required <= old(self).remaining(),
            r is None ==> *final(self) == *old(self),
            r matches Some(block) ==> {
                &&& block@.len() == old(self).channels()
                &&& forall|c: int| 0 <= c < old(self).channels() ==> (#[trigger] block@[c])@
                    == old(self).pending@[c].take(required as int)
                &&& forall|c: int| 0 <= c < old(self).channels() ==> #[trigger] final(self).pending@[c]
                    == old(self).pending@[c].skip(required as int)
                &&& forall|c: int| 0 <= c < old(self).channels() ==> #[trigger] final(self).taken@[c]
                    == old(self).taken@[c] + old(self).pending@[c].take(required as int)
            },
    {
        if required > self.pending.samples_per_channel() {
            return None;
        }
        let ghost old_taken = self.taken@;
        let ghost old_pending = self.pending@;
        let block = self.pending.drain_front(required);
        proof {
            self.taken@ = Seq::new(
                old_taken.len(),
                |c: int| old_taken[c] + old_pending[c].take(required as int),
            );
            assert forall|c: int| 0 <= c < self.source@.len() implies #[trigger] self.source@[c]
                == self.taken@[c] + self.pending@[c] by {
                assert((old_taken[c] + old_pending[c].take(required as int)) + old_pending[c].skip(
                    required as int,
                ) =~= old_taken[c] + old_pending[c]);
            }
        }
        Some(block)
    }

    /// Takes whatever remains as the one final partial block, in order, and
    /// marks the driver flushed. Returns `None`, and still marks the driver
    /// flushed, when nothing remains.
    pub fn flush_block(&mut self) -> (r: Option<Vec<Vec<S>>>)
        requires
            old(self).wf(),
            !old(self).flushed,
        ensures
            final(self).wf(),
            final(self).flushed,
            final(self).channels() == old(self).channels(),
            final(self).source == old(self).source,
            final(self).produced == old(self).produced,
            final(self).remaining() == 0,
            r is Some <==> old(self).remaining() >= 1,
            r is None ==> final(self).pending == old(self).pending && final(self).taken
                == old(self).taken,
            r matches Some(block) ==> {
                &&& block@.len() == old(self).channels()
                &&& forall|c: int| 0 <= c < old(self).channels() ==> (#[trigger] block@[c])@
                    == old(self).pending@[c]
                &&& forall|c: int| 0 <= c < old(self).channels() ==> #[trigger] final(self).taken@[c]
                    == old(self).taken@[c] + old(self).pending@[c]
            },
    {
        let len = self.pending.samples_per_channel();
        if len == 0 {
            self.flushed = true;
            return None;
        }
        let ghost old_taken = self.taken@;
        let ghost old_pending = self.pending@;
        let block = self.pending.drain_front(len);
        self.flushed = true;
        proof {
            self.taken@ = Seq::new(old_taken.len(), |c: int| old_taken[c] + old_pending[c]);
            assert forall|c: int| 0 <= c < old_pending.len() implies (#[trigger] block@[c])@
                == old_pending[c] by {
                assert(old_pending[c].take(len as int) =~= old_pending[c]);
            }
            assert forall|c: int| 0 <= c < self.pending@.len() implies (#[trigger] self.pending@[c])
                .len() == 0 by {
                assert(self.pending@[c] == old_pending[c].skip(len as int));
            }
            assert forall|c: int| 0 <= c < self.source@.len() implies #[trigger] self.source@[c]
                == self.taken@[c] + self.pending@[c] by {
                assert((old_taken[c] + old_pending[c]) + self.pending@[c] =~= old_taken[c]
                    + old_pending[c]);
            }
        }
        Some(block)
    }

    /// Appends the first `valid` output frames of a converted block to the
    /// produced output, interleaving the channels in their original order.
    pub fn push_output(&mut self, block: &Vec<Vec<S>>, valid: usize)
        requires
            old(self).wf(),
            block@.len() == old(self).channels(),
            forall|c: int| 0 <= c < block@.len() ==> (#[trigger] block@[c])@.len() >= valid,
        ensures
            final(self).wf(),
            final(self).pending == old(self).pending,
            final(self).taken == old(self).taken,
            final(self).source == old(self).source,
            final(self).flushed == old(self).flushed,
            final(self).produced@ == old(self).produced@ + interleaved_of(
                block@.map_values(|v: Vec<S>| v@),
                valid as int,
            ),
    {
        let n = block.len();
        let ghost chans = block@.map_values(|v: Vec<S>| v@);
        proof {
            assert(self.produced@ + interleaved_of(chans, 0) =~= self.produced@);
        }
        for f in 0..valid
            invariant
                n == block@.len(),
                chans == block@.map_values(|v: Vec<S>| v@),
                forall|c: int| 0 <= c < n ==> (#[trigger] chans[c]).len() >= valid,
                self.produced@ == old(self).produced@ + interleaved_of(chans, f as int),
                self.pending == old(self).pending,
                self.taken == old(self).taken,
                self.source == old(self).source,
                self.flushed == old(self).flushed,
        {
            let ghost before = self.produced@;
            for c in 0..n
                invariant
                    n == block@.len(),
                    chans == block@.map_values(|v: Vec<S>| v@),
                    forall|i: int| 0 <= i < n ==> (#[trigger] chans[i]).len() >= valid,
                    f < valid,
                    self.produced@ == before + Seq::new(c as nat, |i: int| chans[i][f as int]),
                    self.pending == old(self).pending,
                    self.taken == old(self).taken,
                    self.source == old(self).source,
                    self.flushed == old(self).flushed,
            {
                proof {
                    assert(chans[c as int] == block@[c as int]@);
                }
                let x = block[c][f];
                self.produced.push(x);
                proof {
                    assert(self.produced@ =~= before + Seq::new(
                        (c + 1) as nat,
                        |i: int| chans[i][f as int],
                    ));
                }
            }
            proof {
                assert(interleaved_of(chans, f + 1) == interleaved_of(chans, f as int) + Seq::new(
                    chans.len(),
                    |c: int| chans[c][f as int],
                ));
                assert(self.produced@ =~= old(self).produced@ + interleaved_of(chans, f + 1));
            }
        }
    }

    /// Hands the gathered interleaved output over, consuming the driver.
    pub fn into_produced(self) -> (out: Vec<S>)
        ensures
            out@ == self.produced@,
    {
        self.produced
    }
}

/// Law: once a driver is flushed, every sample it started with has been handed
/// to the converter exactly once, in order — what was taken is, channel by
/// channel, exactly the source.
pub proof fn lemma_flushed_driver_consumed_all<S: Copy>(d: ConversionDriver<S>)
    requires
        d.wf(),
        d.flushed,
    ensures
        forall|c: int| 0 <= c < d.channels() ==> #[trigger] d.taken@[c] == d.source@[c],
{
    assert forall|c: int| 0 <= c < d.channels() implies #[trigger] d.taken@[c] == d.source@[c] by {
        assert(d.pending@[c].len() == d.pending@[0].len());
        assert(d.taken@[c] + d.pending@[c] =~= d.taken@[c]);
    }
}

} // verus!
