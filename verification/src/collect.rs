use vstd::prelude::*;

use crate::channels::{channel_of_interleaved, ChannelSet};
use crate::errors::PipelineError;
use crate::frame::{DecodeStep, StreamFormat};

verus! {

/// Accumulates decoded frames into per-channel sample sequences, recording the
/// stream's format from the first frame and holding every later frame to it.
pub struct FrameCollector {
    /// The stream's format, fixed by the first frame; `None` until one arrived.
    pub format: Option<StreamFormat>,
    /// The de-interleaved samples of every frame consumed so far.
    pub set: ChannelSet<i16>,
    /// True once the end-of-stream marker was consumed.
    pub done: bool,
}

impl FrameCollector {
    /// Before the first frame nothing is buffered; afterwards there is one
    /// channel sequence per recorded channel.
    pub open spec fn wf(self) -> bool {
        &&& self.set.wf()
        &&& match self.format {
            Option::None => self.set@.len() == 0 && !self.done,
            Option::Some(fmt) => self.set@.len() == fmt.channels && fmt.channels >= 1,
        }
    }

    /// A collector that has consumed nothing.
    pub fn new() -> (r: Self)
        ensures
            r.wf(),
            r.format is None,
            !r.done,
    {
        FrameCollector { format: None, set: ChannelSet::with_channels(0), done: false }
    }

    /// Consumes one step of the decoder's output sequence. Returns `Ok(true)`
    /// when more steps should follow, `Ok(false)` when the end marker closed a
    /// non-empty stream, and otherwise the fatal error the step provokes: an
    /// end marker before any frame is an empty source, a corrupted step is a
    /// decode error, and a frame whose sample rate or channel count differs
    /// from the first frame's is a format inconsistency.
    pub fn push_step(&mut self, step: DecodeStep) -> (r: Result<bool, PipelineError>)
        requires
            old(self).wf(),
            !old(self).done,
            step matches DecodeStep::Audio(f) ==> f.whole(),
        ensures
            final(self).wf(),
            step is EndOfStream && old(self).format is None ==> r == Err::<
                bool,
                PipelineError,
            >(PipelineError::EmptySource) && *final(self) == *old(self),
            step is EndOfStream && old(self).format is Some ==> r == Ok::<
                bool,
                PipelineError,
            >(false) && final(self).done && final(self).format == old(self).format
                && final(self).set == old(self).set,
            step is Corrupted ==> r == Err::<bool, PipelineError>(PipelineError::DecodeError)
                && *final(self) == *old(self),
            step matches DecodeStep::Audio(f) ==> match old(self).format {
                Option::None => {
                    &&& r == Ok::<bool, PipelineError>(true)
                    &&& final(self).format == Some(
                        StreamFormat { sample_rate: f.sample_rate, channels: f.channels },
                    )
                    &&& !final(self).done
                    &&& final(self).set@.len() == f.channels
                    &&& forall|c: int| 0 <= c < f.channels ==> #[trigger] final(self).set@[c]
                        == channel_of_interleaved(f.data@, f.channels as int, c)
                },
                Option::Some(fmt) => {
                    if f.sample_rate != fmt.sample_rate || f.channels != fmt.channels {
                        r == Err::<bool, PipelineError>(PipelineError::FormatInconsistency)
                            && *final(self) == *old(self)
                    } else {
                        &&& r == Ok::<bool, PipelineError>(true)
                        &&& final(self).format == old(self).format
                        &&& !final(self).done
                        &&& final(self).set@.len() == fmt.channels
                        &&& forall|c: int| 0 <= c < fmt.channels ==> #[trigger] final(self).set@[c]
                            == old(self).set@[c] + channel_of_interleaved(
                            f.data@,
                            fmt.channels as int,
                            c,
                        )
                    }
                },
            },
    {
        match step {
            DecodeStep::EndOfStream => {
                if self.format.is_none() {
                    Err(PipelineError::EmptySource)
                } else {
                    self.done = true;
                    Ok(false)
                }
            },
            DecodeStep::Corrupted => Err(PipelineError::DecodeError),
            DecodeStep::Audio(f) => {
                match self.format {
                    Option::None => {
                        self.format = Some(
                            StreamFormat { sample_rate: f.sample_rate, channels: f.channels },
                        );
                        let mut set = ChannelSet::with_channels(f.channels);
                        set.push_interleaved(&f.data);
                        proof {
                            assert forall|c: int| 0 <= c < f.channels implies #[trigger] set@[c]
                                == channel_of_interleaved(f.data@, f.channels as int, c) by {
                                assert(Seq::<i16>::empty() + channel_of_interleaved(
                                    f.data@,
                                    f.channels as int,
                                    c,
                                ) =~= channel_of_interleaved(f.data@, f.channels as int, c));
                            }
                        }
                        self.set = set;
                        Ok(true)
                    },
                    Option::Some(fmt) => {
                        if f.sample_rate != fmt.sample_rate || f.channels != fmt.channels {
                            Err(PipelineError::FormatInconsistency)
                        } else {
                            self.set.push_interleaved(&f.data);
                            Ok(true)
                        }
                    },
                }
            },
        }
    }
}

} // verus!
