use vstd::prelude::*;

use crate::collect::FrameCollector;
use crate::errors::PipelineError;
use crate::frame::{AudioFrame, DecodeStep};

verus! {

/// Declares the MP3 decoder of minimp3_fixed; its value is opaque here.
#[verifier::external_type_specification]
#[verifier::external_body]
#[verifier::reject_recursive_types(R)]
pub struct ExDecoder<R>(minimp3_fixed::Decoder<R>);

/// Declares std's in-memory byte reader; its value is opaque here.
#[verifier::external_type_specification]
#[verifier::external_body]
#[verifier::reject_recursive_types(T)]
pub struct ExCursor<T>(std::io::Cursor<T>);

/// Relies on minimp3_fixed::Decoder::new: builds a decoder that reads the
/// given bytes from the front.
#[verifier::external_body]
fn decoder_over_bytes(bytes: Vec<u8>) -> minimp3_fixed::Decoder<std::io::Cursor<Vec<u8>>> {
    minimp3_fixed::Decoder::new(std::io::Cursor::new(bytes))
}

/// Relies on minimp3_fixed::Decoder::next_frame: on success the frame holds
/// `samples * channels` interleaved samples, with `samples` at least one and
/// `channels` either 1 or 2 (mp3dec_decode_frame reports mono or stereo);
/// `Error::Eof` marks the end of the source, and every other error means the
/// source cannot be decoded further.
#[verifier::external_body]
fn next_step(dec: &mut minimp3_fixed::Decoder<std::io::Cursor<Vec<u8>>>) -> (step: DecodeStep)
    ensures
        step matches DecodeStep::Audio(f) ==> f.whole() && f.channels <= 2 && f.data@.len()
            >= f.channels,
{
    match dec.next_frame() {
        Ok(f) => DecodeStep::Audio(
            AudioFrame { data: f.data, sample_rate: f.sample_rate, channels: f.channels },
        ),
        Err(minimp3_fixed::Error::Eof) => DecodeStep::EndOfStream,
        Err(minimp3_fixed::Error::Io(_)) => DecodeStep::Corrupted,
        Err(minimp3_fixed::Error::InsufficientData) => DecodeStep::Corrupted,
        Err(minimp3_fixed::Error::SkippedData) => DecodeStep::Corrupted,
    }
}

/// Decodes a whole MP3 byte stream into per-channel integer samples. On
/// success the collector is complete: it consumed the end marker, holds the
/// format of the first frame, and one equal-length sample sequence per
/// channel. The errors are exactly the decode-side ones: an empty source, a
/// decode failure, or a frame that changed the stream's format.
pub fn decode_stream(bytes: Vec<u8>) -> (r: Result<FrameCollector, PipelineError>)
    ensures
        r matches Ok(col) ==> col.wf() && col.done && col.format is Some,
        r matches Err(e) ==> (e == PipelineError::EmptySource || e == PipelineError::DecodeError
            || e == PipelineError::FormatInconsistency),
{
    let mut dec = decoder_over_bytes(bytes);
    let mut col = FrameCollector::new();
    // No real stream holds anywhere near usize::MAX frames; the bound only
    // keeps the frame loop finite.
    let mut fuel: usize = usize::MAX;
    loop
        invariant
            col.wf(),
            !col.done,
        decreases fuel,
    {
        if fuel == 0 {
            return Err(PipelineError::DecodeError);
        }
        fuel = fuel - 1;
        let step = next_step(&mut dec);
        match col.push_step(step) {
            Ok(true) => {},
            Ok(false) => {
                return Ok(col);
            },
            Err(e) => {
                return Err(e);
            },
        }
    }
}

} // verus!
