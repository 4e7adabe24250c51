use mp3_pipeline::channels::ChannelSet;
use mp3_pipeline::resample::ConversionDriver;

fn driver_over(chans: Vec<Vec<i64>>) -> ConversionDriver<i64> {
    ConversionDriver::new(ChannelSet::from_data(chans).unwrap())
}

#[test]
fn blocks_come_off_the_front_in_order() {
    let mut d = driver_over(vec![vec![1, 2, 3, 4, 5, 6, 7, 8, 9, 10], vec![
        11, 12, 13, 14, 15, 16, 17, 18, 19, 20,
    ]]);
    let b1 = d.next_block(4).unwrap();
    assert_eq!(b1, vec![vec![1, 2, 3, 4], vec![11, 12, 13, 14]]);
    let b2 = d.next_block(4).unwrap();
    assert_eq!(b2, vec![vec![5, 6, 7, 8], vec![15, 16, 17, 18]]);
    // Fewer samples remain than one full block: the boundary check refuses.
    assert!(d.next_block(4).is_none());
    // The remainder comes out as the one final partial block.
    let fb = d.flush_block().unwrap();
    assert_eq!(fb, vec![vec![9, 10], vec![19, 20]]);
}

#[test]
fn every_input_sample_is_taken_exactly_once() {
    let mut d = driver_over(vec![vec![1, 2, 3, 4, 5], vec![6, 7, 8, 9, 10]]);
    let mut taken0: Vec<i64> = Vec::new();
    let mut taken1: Vec<i64> = Vec::new();
    while let Some(block) = d.next_block(2) {
        taken0.extend(&block[0]);
        taken1.extend(&block[1]);
    }
    if let Some(block) = d.flush_block() {
        taken0.extend(&block[0]);
        taken1.extend(&block[1]);
    }
    assert_eq!(taken0, vec![1, 2, 3, 4, 5]);
    assert_eq!(taken1, vec![6, 7, 8, 9, 10]);
}

#[test]
fn flush_takes_nothing_when_nothing_is_left() {
    let mut d = driver_over(vec![vec![1, 2], vec![3, 4]]);
    assert!(d.next_block(2).is_some());
    assert!(d.flush_block().is_none());
}

#[test]
fn output_interleaves_only_the_valid_frames() {
    let mut d = driver_over(vec![vec![0], vec![0]]);
    // A converted block with capacity 4 per channel of which 3 frames are valid.
    let block = vec![vec![1, 2, 3, 99], vec![-1, -2, -3, 99]];
    d.push_output(&block, 3);
    let out = d.into_produced();
    assert_eq!(out, vec![1, -1, 2, -2, 3, -3]);
}

#[test]
fn output_accumulates_across_blocks() {
    let mut d = driver_over(vec![vec![0], vec![0]]);
    d.push_output(&vec![vec![1, 2], vec![5, 6]], 2);
    d.push_output(&vec![vec![3], vec![7]], 1);
    assert_eq!(d.into_produced(), vec![1, 5, 2, 6, 3, 7]);
}
