use xvisual::bands::{band_range, snapshot, stretch_index};

#[test]
fn full_window_splits_evenly() {
    assert_eq!(band_range(512, 32, 0), Some((0, 16)));
    assert_eq!(band_range(512, 32, 1), Some((16, 32)));
    assert_eq!(band_range(512, 32, 31), Some((496, 512)));
    assert_eq!(band_range(512, 64, 63), Some((504, 512)));
}

#[test]
fn short_window_uses_one_sample_bands() {
    assert_eq!(band_range(10, 16, 0), Some((0, 1)));
    assert_eq!(band_range(10, 16, 9), Some((9, 10)));
    assert_eq!(band_range(10, 16, 10), None);
    assert_eq!(band_range(10, 16, 15), None);
    assert_eq!(band_range(0, 16, 0), None);
}

#[test]
fn uneven_window_leaves_a_tail_out() {
    assert_eq!(band_range(130, 64, 0), Some((0, 2)));
    assert_eq!(band_range(130, 64, 63), Some((126, 128)));
    assert_eq!(band_range(100, 64, 63), Some((63, 64)));
    assert_eq!(band_range(127, 64, 63), Some((63, 64)));
}

#[test]
fn bands_are_disjoint_and_ordered() {
    for len in 0..600usize {
        for &n in &[16usize, 32, 64] {
            let mut last_end = 0usize;
            for b in 0..n {
                if let Some((s, e)) = band_range(len, n, b) {
                    assert!(s < e && e <= len);
                    assert!(s >= last_end);
                    last_end = e;
                }
            }
            if len >= n {
                assert!(last_end + n > len);
            }
        }
    }
}

#[test]
fn stretch_maps_columns_onto_bands() {
    assert_eq!(stretch_index(0, 64, 8), 0);
    assert_eq!(stretch_index(1, 64, 8), 8);
    assert_eq!(stretch_index(7, 64, 8), 56);
    assert_eq!(stretch_index(63, 32, 64), 31);
    assert_eq!(stretch_index(62, 32, 64), 31);
    assert_eq!(stretch_index(10, 5, 10), 4);
    assert_eq!(stretch_index(79, 256, 76), 255);
    assert_eq!(stretch_index(38, 256, 76), 128);
}

#[test]
fn stretch_never_moves_left() {
    for span in 1..50usize {
        for n in 1..70usize {
            let mut last = 0;
            for pos in 0..span + 5 {
                let r = stretch_index(pos, n, span);
                assert!(r < n && r >= last);
                last = r;
            }
        }
    }
}

#[test]
fn snapshot_takes_evenly_strided_samples() {
    let window: Vec<u32> = (0..10).collect();
    let mut wave = vec![99u32; 4];
    snapshot(&window, &mut wave);
    assert_eq!(wave, vec![0, 2, 4, 6]);
}

#[test]
fn snapshot_of_a_short_window_repeats_the_last_sample() {
    let window: Vec<u32> = vec![7, 8, 9];
    let mut wave = vec![0u32; 5];
    snapshot(&window, &mut wave);
    assert_eq!(wave, vec![7, 8, 9, 9, 9]);
}

#[test]
fn snapshot_of_floats() {
    let window: Vec<f32> = (0..512).map(|k| k as f32 * 0.5).collect();
    let mut wave = vec![0.0f32; 256];
    snapshot(&window, &mut wave);
    assert_eq!(wave[0], 0.0);
    assert_eq!(wave[1], 1.0);
    assert_eq!(wave[255], 255.0);
}
