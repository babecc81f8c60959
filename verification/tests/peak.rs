use xvisual::peak::{peak_step, PeakMove};

#[test]
fn peak_step_moves() {
    assert_eq!(peak_step(true, 5, 20), (20, PeakMove::Capture));
    assert_eq!(peak_step(false, 5, 20), (4, PeakMove::Hold));
    assert_eq!(peak_step(false, 0, 20), (0, PeakMove::Decay));
    assert_eq!(peak_step(true, 0, 35), (35, PeakMove::Capture));
}

#[test]
fn captured_peak_holds_then_falls() {
    for hold in [0u32, 1, 20, 35] {
        let (mut t, m) = peak_step(true, 0, hold);
        assert_eq!(m, PeakMove::Capture);
        for _ in 0..hold {
            let (nt, m) = peak_step(false, t, hold);
            assert_eq!(m, PeakMove::Hold);
            t = nt;
        }
        for _ in 0..5 {
            let (nt, m) = peak_step(false, t, hold);
            assert_eq!(m, PeakMove::Decay);
            t = nt;
        }
    }
}
