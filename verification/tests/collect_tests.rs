use mp3_pipeline::channels::ChannelSet;
use mp3_pipeline::collect::FrameCollector;
use mp3_pipeline::errors::PipelineError;
use mp3_pipeline::frame::{AudioFrame, DecodeStep, StreamFormat};

fn frame(data: Vec<i16>, sample_rate: i32, channels: usize) -> DecodeStep {
    DecodeStep::Audio(AudioFrame {
        data,
        sample_rate,
        channels,
    })
}

#[test]
fn records_format_of_first_frame() {
    let mut col = FrameCollector::new();
    let r = col.push_step(frame(vec![1, 2, 3, 4], 44100, 2));
    assert_eq!(r, Ok(true));
    assert_eq!(
        col.format,
        Some(StreamFormat {
            sample_rate: 44100,
            channels: 2
        })
    );
    assert_eq!(col.set.channel_count(), 2);
}

#[test]
fn channel_count_change_raises_format_inconsistency() {
    let mut col = FrameCollector::new();
    assert_eq!(col.push_step(frame(vec![1, 2, 3, 4], 8000, 2)), Ok(true));
    let r = col.push_step(frame(vec![5, 6], 8000, 1));
    assert_eq!(r, Err(PipelineError::FormatInconsistency));
    // The recorded format still belongs to the first frame.
    assert_eq!(
        col.format,
        Some(StreamFormat {
            sample_rate: 8000,
            channels: 2
        })
    );
}

#[test]
fn sample_rate_change_raises_format_inconsistency() {
    let mut col = FrameCollector::new();
    assert_eq!(col.push_step(frame(vec![1, 2], 8000, 2)), Ok(true));
    let r = col.push_step(frame(vec![3, 4], 16000, 2));
    assert_eq!(r, Err(PipelineError::FormatInconsistency));
}

#[test]
fn empty_source_raises_on_first_step() {
    let mut col = FrameCollector::new();
    let r = col.push_step(DecodeStep::EndOfStream);
    assert_eq!(r, Err(PipelineError::EmptySource));
    // Nothing was buffered before the error.
    assert_eq!(col.set.channel_count(), 0);
}

#[test]
fn corrupted_step_raises_decode_error() {
    let mut col = FrameCollector::new();
    assert_eq!(col.push_step(frame(vec![1, 2], 8000, 2)), Ok(true));
    assert_eq!(
        col.push_step(DecodeStep::Corrupted),
        Err(PipelineError::DecodeError)
    );
}

#[test]
fn end_after_frames_completes() {
    let mut col = FrameCollector::new();
    assert_eq!(col.push_step(frame(vec![1, 2], 8000, 1)), Ok(true));
    assert_eq!(col.push_step(DecodeStep::EndOfStream), Ok(false));
    assert!(col.done);
}

#[test]
fn deinterleave_is_lossless_and_order_preserving() {
    let mut col = FrameCollector::new();
    // Two channels: even indices belong to channel 0, odd ones to channel 1.
    assert_eq!(
        col.push_step(frame(vec![10, -11, 20, -21, 30, -31], 8000, 2)),
        Ok(true)
    );
    assert_eq!(col.push_step(frame(vec![40, -41], 8000, 2)), Ok(true));
    let chans = col.set.into_data();
    assert_eq!(chans.len(), 2);
    assert_eq!(chans[0], vec![10, 20, 30, 40]);
    assert_eq!(chans[1], vec![-11, -21, -31, -41]);
}

#[test]
fn normalization_convention_divides_by_max_magnitude() {
    // The de-interleaved integers normalize to [-1.0, 1.0] by dividing by
    // i16::MAX, as the playback front end does before rate conversion.
    let mut col = FrameCollector::new();
    assert_eq!(
        col.push_step(frame(vec![i16::MAX, 0, -i16::MAX], 8000, 1)),
        Ok(true)
    );
    let chans = col.set.into_data();
    let normalized: Vec<f64> = chans[0]
        .iter()
        .map(|s| *s as f64 / i16::MAX as f64)
        .collect();
    assert_eq!(normalized, vec![1.0, 0.0, -1.0]);
}

#[test]
fn three_channel_deinterleave_wraps_in_order() {
    let mut set: ChannelSet<i16> = ChannelSet::with_channels(3);
    set.push_interleaved(&vec![1, 2, 3, 4, 5, 6, 7, 8, 9]);
    let chans = set.into_data();
    assert_eq!(chans[0], vec![1, 4, 7]);
    assert_eq!(chans[1], vec![2, 5, 8]);
    assert_eq!(chans[2], vec![3, 6, 9]);
}

#[test]
fn from_data_rejects_unequal_channels() {
    assert!(ChannelSet::from_data(vec![vec![1i16, 2], vec![3]]).is_none());
    assert!(ChannelSet::<i16>::from_data(vec![]).is_none());
    assert!(ChannelSet::from_data(vec![vec![1i16, 2], vec![3, 4]]).is_some());
}
