use vstd::prelude::*;

verus! {

/// Every failure the pipeline can raise. Each one is fatal: nothing is retried
/// and nothing is recovered, the whole run stops with the first error raised.
#[derive(Clone, Copy, Debug, PartialEq, Eq, Structural)]
pub enum PipelineError {
    /// The source ended before a single frame was decoded.
    EmptySource,
    /// The compressed data could not be decoded.
    DecodeError,
    /// A frame reported a sample rate or channel count different from the first frame's.
    FormatInconsistency,
    /// The rate converter rejected the requested rate pairing at construction.
    ResamplerInitError,
    /// A rate-conversion step failed.
    ResamplerRuntimeError,
    /// No output device, or no usable output configuration, was available.
    DeviceUnavailable,
    /// The device asked for a chunk whose length is not a multiple of the channel count.
    IrregularChunkSize,
    /// The device reported a stream-level playback failure.
    StreamError,
}

} // verus!
