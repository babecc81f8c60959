//! Interleaved 32-bit little-endian audio frames, as the capture stream
//! delivers them.
use vstd::prelude::*;

verus! {

/// The 32-bit little-endian word that starts at byte `k` of `bytes`.
pub open spec fn le_word(bytes: Seq<u8>, k: int) -> u32 {
    (bytes[k] + 256 * bytes[k + 1] + 65536 * bytes[k + 2] + 16777216 * bytes[k + 3]) as u32
}

/// The word is little-endian: its lowest byte is the first byte in the
/// buffer and its highest byte the fourth, with the middle two in order.
pub proof fn lemma_le_word_bytes(bytes: Seq<u8>, k: int)
    requires
        0 <= k,
        k + 4 <= bytes.len(),
    ensures
        le_word(bytes, k) % 256 == bytes[k],
        (le_word(bytes, k) / 256) % 256 == bytes[k + 1],
        (le_word(bytes, k) / 65536) % 256 == bytes[k + 2],
        le_word(bytes, k) / 16777216 == bytes[k + 3],
{
    let b0 = bytes[k] as int;
    let b1 = bytes[k + 1] as int;
    let b2 = bytes[k + 2] as int;
    let b3 = bytes[k + 3] as int;
    let w = b0 + 256 * b1 + 65536 * b2 + 16777216 * b3;
    assert(w < 0x1_0000_0000);
    assert(le_word(bytes, k) == w);
    assert(w % 256 == b0) by (nonlinear_arith)
        requires
            w == b0 + 256 * (b1 + 256 * b2 + 65536 * b3),
            0 <= b0 < 256,
            0 <= b1 + 256 * b2 + 65536 * b3,
    {
        vstd::arithmetic::div_mod::lemma_fundamental_div_mod_converse(
            w,
            256,
            b1 + 256 * b2 + 65536 * b3,
            b0,
        );
    }
    assert(w / 256 == b1 + 256 * b2 + 65536 * b3) by (nonlinear_arith)
        requires
            w == b0 + 256 * (b1 + 256 * b2 + 65536 * b3),
            0 <= b0 < 256,
    {
        vstd::arithmetic::div_mod::lemma_fundamental_div_mod_converse(
            w,
            256,
            b1 + 256 * b2 + 65536 * b3,
            b0,
        );
    }
    assert(w / 65536 == b2 + 256 * b3) by (nonlinear_arith)
        requires
            w == (b0 + 256 * b1) + 65536 * (b2 + 256 * b3),
            0 <= b0 + 256 * b1 < 65536,
    {
        vstd::arithmetic::div_mod::lemma_fundamental_div_mod_converse(
            w,
            65536,
            b2 + 256 * b3,
            b0 + 256 * b1,
        );
    }
    assert(w / 16777216 == b3) by (nonlinear_arith)
        requires
            w == (b0 + 256 * b1 + 65536 * b2) + 16777216 * b3,
            0 <= b0 + 256 * b1 + 65536 * b2 < 16777216,
    {
        vstd::arithmetic::div_mod::lemma_fundamental_div_mod_converse(
            w,
            16777216,
            b3,
            b0 + 256 * b1 + 65536 * b2,
        );
    }
    let m1 = b1 + 256 * b2 + 65536 * b3;
    assert(m1 % 256 == b1) by (nonlinear_arith)
        requires
            m1 == b1 + 256 * (b2 + 256 * b3),
            0 <= b1 < 256,
            0 <= b2 + 256 * b3,
    {
        vstd::arithmetic::div_mod::lemma_fundamental_div_mod_converse(m1, 256, b2 + 256 * b3, b1);
    }
    let m2 = b2 + 256 * b3;
    assert(m2 % 256 == b2) by (nonlinear_arith)
        requires
            m2 == b2 + 256 * b3,
            0 <= b2 < 256,
            0 <= b3,
    {
        vstd::arithmetic::div_mod::lemma_fundamental_div_mod_converse(m2, 256, b3, b2);
    }
}

/// Whole frames in `len` bytes of 4-byte samples for `channels` channels;
/// a trailing partial frame is dropped.
pub open spec fn frame_count(len: int, channels: int) -> int {
    (len / 4) / channels
}

/// Byte offset of the sample of channel `ch` in frame `i`.
pub open spec fn sample_offset(i: int, ch: int, channels: int) -> int {
    (i * channels + ch) * 4
}

proof fn lemma_offset_in_bounds(len: int, channels: int, i: int, ch: int)
    requires
        0 <= len,
        0 < channels,
        0 <= i < frame_count(len, channels),
        0 <= ch < channels,
    ensures
        0 <= sample_offset(i, ch, channels),
        sample_offset(i, ch, channels) + 4 <= len,
        sample_offset(i, ch, channels) + 4 == sample_offset(i, ch + 1, channels),
        sample_offset(i, channels, channels) == sample_offset(i + 1, 0, channels),
        sample_offset(i, 0, channels) == i * channels * 4,
        0 <= i * channels <= i * channels * 4,
{
    assert((i * channels + 0) * 4 == i * channels * 4) by (nonlinear_arith);
    assert(0 <= i * channels) by (nonlinear_arith)
        requires
            0 <= i,
            0 < channels,
    ;
    assert(0 <= i * channels + ch) by (nonlinear_arith)
        requires
            0 <= i,
            0 < channels,
            0 <= ch,
    ;
    assert(i * channels + ch < (len / 4)) by (nonlinear_arith)
        requires
            0 <= i < (len / 4) / channels,
            0 <= ch < channels,
            0 < channels,
            0 <= len,
    {
        assert(i + 1 <= (len / 4) / channels);
        assert((i + 1) * channels <= ((len / 4) / channels) * channels);
        vstd::arithmetic::div_mod::lemma_fundamental_div_mod(len / 4, channels);
    }
    assert((i * channels + channels) == (i + 1) * channels) by (nonlinear_arith);
}

/// Whole frames in a buffer of `len` bytes for `channels` channels; none
/// for a stream that has not said how many channels it carries.
pub fn frames_in(len: usize, channels: u32) -> (n: usize)
    ensures
        channels == 0 ==> n == 0,
        channels > 0 ==> n == frame_count(len as int, channels as int),
{
    if channels == 0 {
        0
    } else {
        len / 4 / (channels as usize)
    }
}

/// The raw little-endian word of channel `ch` in frame `frame` of a buffer
/// of interleaved 4-byte samples.
pub fn frame_word(bytes: &[u8], channels: u32, frame: usize, ch: u32) -> (w: u32)
    requires
        0 < channels,
        frame < frame_count(bytes@.len() as int, channels as int),
        ch < channels,
    ensures
        w == le_word(bytes@, sample_offset(frame as int, ch as int, channels as int)),
{
    let _len = bytes.len();
    proof {
        lemma_offset_in_bounds(bytes@.len() as int, channels as int, frame as int, ch as int);
        lemma_offset_in_bounds(bytes@.len() as int, channels as int, frame as int, 0);
        assert(sample_offset(frame as int, ch as int, channels as int) == frame * channels * 4 + ch
            * 4) by (nonlinear_arith);
    }
    let off = frame * (channels as usize) * 4 + (ch as usize) * 4;
    bytes[off] as u32 + 256 * (bytes[off + 1] as u32) + 65536 * (bytes[off + 2] as u32)
        + 16777216 * (bytes[off + 3] as u32)
}

/// Splits a buffer of interleaved 4-byte little-endian samples into
/// frames: frame `i` holds the raw word of each of the `channels` channels
/// in order. No frames come from a stream that has not said how many
/// channels it carries.
pub fn split_frames(bytes: &[u8], channels: u32) -> (frames: Vec<Vec<u32>>)
    ensures
        channels == 0 ==> frames@.len() == 0,
        channels > 0 ==> frames@.len() == frame_count(bytes@.len() as int, channels as int),
        forall|i: int|
            0 <= i < frames@.len() ==> #[trigger] frames@[i]@.len() == channels,
        forall|i: int, ch: int|
            0 <= i < frames@.len() && 0 <= ch < channels ==> #[trigger] frames@[i]@[ch]
                == le_word(bytes@, sample_offset(i, ch, channels as int)),
{
    let mut frames: Vec<Vec<u32>> = Vec::new();
    let n = frames_in(bytes.len(), channels);
    let mut i: usize = 0;
    while i < n
        invariant
            channels == 0 ==> n == 0,
            channels > 0 ==> n == frame_count(bytes@.len() as int, channels as int),
            i <= n,
            frames@.len() == i,
            forall|k: int| 0 <= k < i ==> #[trigger] frames@[k]@.len() == channels,
            forall|k: int, ch: int|
                0 <= k < i && 0 <= ch < channels ==> #[trigger] frames@[k]@[ch] == le_word(
                    bytes@,
                    sample_offset(k, ch, channels as int),
                ),
        decreases n - i,
    {
        let mut frame: Vec<u32> = Vec::new();
        let mut ch: u32 = 0;
        while ch < channels
            invariant
                0 < channels,
                i < n,
                n == frame_count(bytes@.len() as int, channels as int),
                ch <= channels,
                frame@.len() == ch,
                forall|j: int|
                    0 <= j < ch ==> #[trigger] frame@[j] == le_word(
                        bytes@,
                        sample_offset(i as int, j, channels as int),
                    ),
            decreases channels - ch,
        {
            frame.push(frame_word(bytes, channels, i, ch));
            ch = ch + 1;
        }
        frames.push(frame);
        i = i + 1;
    }
    frames
}

} // verus!
