use vstd::prelude::*;

verus! {

/// One decode unit: interleaved integer samples plus the format the decoder
/// reported for them. Sample index `i` belongs to channel `i % channels`.
pub struct AudioFrame {
    /// Interleaved samples, `channels` per sample instant.
    pub data: Vec<i16>,
    /// The frame's sample rate in hertz.
    pub sample_rate: i32,
    /// The number of interleaved channels.
    pub channels: usize,
}

impl AudioFrame {
    /// A frame is whole when it has at least one channel and carries the same
    /// number of samples for every channel.
    pub open spec fn whole(self) -> bool {
        &&& self.channels >= 1
        &&& self.data@.len() % (self.channels as nat) == 0
    }
}

/// One step of the decoder's output sequence: a frame, the end marker, or a
/// decode failure. The sequence is finite and ends with the first non-frame step.
pub enum DecodeStep {
    /// The decoder produced a frame of audio.
    Audio(AudioFrame),
    /// The decoder reached the end of its source.
    EndOfStream,
    /// The decoder could not make sense of the source.
    Corrupted,
}

/// The format of a stream, fixed by its first frame. Every later frame must
/// report exactly these values.
#[derive(Clone, Copy, Debug, PartialEq, Eq, Structural)]
pub struct StreamFormat {
    /// Source sample rate in hertz.
    pub sample_rate: i32,
    /// Number of channels.
    pub channels: usize,
}

} // verus!
