use xvisual::rng::{next_random, stir, STIR};

#[test]
fn xorshift_steps_from_the_screen_seed() {
    let mut state: u64 = 0xdeadbeef_cafebabe;
    let r = next_random(&mut state);
    assert_eq!(state, 0x27dc5c1b2d04284b);
    assert_eq!(r, 1402476530344069);
    let r2 = next_random(&mut state);
    assert_eq!(state, 0xa29639727aeb52db);
    assert_eq!(r2, 5720514963135850);
}

#[test]
fn xorshift_from_one() {
    let mut state: u64 = 1;
    let r = next_random(&mut state);
    assert_eq!(state, 0x40822041);
    assert_eq!(r, 528452);
}

#[test]
fn random_fraction_stays_below_one() {
    let mut state: u64 = 0xdeadbeef_cafebabe;
    for _ in 0..10_000 {
        let r = next_random(&mut state);
        assert!(r < (1u64 << 53));
        let f = r as f32 / (1u64 << 53) as f32;
        assert!(f >= 0.0 && f <= 1.0);
    }
}

#[test]
fn nonzero_state_never_reaches_zero() {
    let mut state: u64 = 0x8000_0000_0000_0000;
    for _ in 0..100_000 {
        next_random(&mut state);
        assert_ne!(state, 0);
    }
}

#[test]
fn zero_state_stays_zero() {
    let mut state: u64 = 0;
    assert_eq!(next_random(&mut state), 0);
    assert_eq!(state, 0);
}

#[test]
fn stir_adds_frame_times_multiplier_wrapping() {
    assert_eq!(stir(5, 3), 645664597830827404);
    assert_eq!(stir(u64::MAX, 1), 6364136223846793004);
    assert_eq!(stir(42, 0), 42);
    assert_eq!(stir(7, 1), 7u64.wrapping_add(STIR));
}
