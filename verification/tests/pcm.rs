use xvisual::pcm::{frame_word, frames_in, split_frames};

fn bytes_of(samples: &[f32]) -> Vec<u8> {
    samples.iter().flat_map(|s| s.to_le_bytes()).collect()
}

#[test]
fn stereo_frames_split_by_channel() {
    let mut bytes = bytes_of(&[1.0, -1.0, 0.5, 0.25]);
    bytes.extend_from_slice(&[1, 2, 3]);
    let frames = split_frames(&bytes, 2);
    assert_eq!(frames.len(), 2);
    assert_eq!(f32::from_bits(frames[0][0]), 1.0);
    assert_eq!(f32::from_bits(frames[0][1]), -1.0);
    assert_eq!(f32::from_bits(frames[1][0]), 0.5);
    assert_eq!(f32::from_bits(frames[1][1]), 0.25);
}

#[test]
fn words_are_little_endian() {
    let frames = split_frames(&[0x78, 0x56, 0x34, 0x12, 0xff, 0xff, 0xff, 0xff], 1);
    assert_eq!(frames, vec![vec![0x12345678u32], vec![0xffff_ffffu32]]);
}

#[test]
fn partial_frames_are_dropped() {
    let bytes = bytes_of(&[1.0, 2.0, 3.0, 4.0, 5.0]);
    assert_eq!(split_frames(&bytes, 2).len(), 2);
    assert_eq!(split_frames(&bytes, 3).len(), 1);
    assert_eq!(split_frames(&bytes, 6).len(), 0);
    assert_eq!(split_frames(&bytes[..3], 1).len(), 0);
}

#[test]
fn no_frames_without_channels() {
    let bytes = bytes_of(&[1.0, 2.0]);
    assert!(split_frames(&bytes, 0).is_empty());
}

#[test]
fn frame_word_reads_one_channel_of_one_frame() {
    let bytes = bytes_of(&[1.0, -1.0, 0.5, 0.25, 9.0]);
    assert_eq!(frames_in(bytes.len(), 2), 2);
    assert_eq!(f32::from_bits(frame_word(&bytes, 2, 0, 1)), -1.0);
    assert_eq!(f32::from_bits(frame_word(&bytes, 2, 1, 0)), 0.5);
    assert_eq!(f32::from_bits(frame_word(&bytes, 2, 1, 1)), 0.25);
    assert_eq!(frame_word(&[0x78, 0x56, 0x34, 0x12], 1, 0, 0), 0x12345678);
}

#[test]
fn frames_in_counts_whole_frames() {
    assert_eq!(frames_in(19, 2), 2);
    assert_eq!(frames_in(24, 3), 2);
    assert_eq!(frames_in(3, 1), 0);
    assert_eq!(frames_in(100, 0), 0);
}
