use xvisual::dashboard::{
    arc_dot_is_heavy, arc_zone, boost_step, gear_for_rpm, label_is_red, Zone, ARC_STEPS,
    BOOST_FRAMES,
};

#[test]
fn gears_change_at_band_edges() {
    let cases = [
        (0, 1),
        (1400, 1),
        (1401, 2),
        (2900, 2),
        (2901, 3),
        (4300, 3),
        (4301, 4),
        (5800, 4),
        (5801, 5),
        (7500, 5),
        (7501, 6),
        (9000, 6),
        (u32::MAX, 6),
    ];
    for (rpm, gear) in cases {
        assert_eq!(gear_for_rpm(rpm), gear, "rpm {}", rpm);
    }
}

#[test]
fn gears_never_go_down_as_rpm_rises() {
    let mut last = gear_for_rpm(0);
    for rpm in 0..10_000u32 {
        let g = gear_for_rpm(rpm);
        assert!(g >= last);
        last = g;
    }
}

#[test]
fn boost_restarts_on_a_beat_and_counts_down() {
    assert_eq!(boost_step(0, true), BOOST_FRAMES - 1);
    assert_eq!(boost_step(5, true), 21);
    assert_eq!(boost_step(5, false), 4);
    assert_eq!(boost_step(0, false), 0);
}

#[test]
fn boost_lit_for_twenty_quiet_frames_after_a_beat() {
    let mut t = boost_step(3, true);
    assert_eq!(t, 21);
    for k in 1..=20u32 {
        t = boost_step(t, false);
        assert_eq!(t, 21 - k);
        assert!(t > 0);
    }
    t = boost_step(t, false);
    assert_eq!(t, 0);
    assert_eq!(boost_step(t, false), 0);
}

#[test]
fn arc_zones_at_their_edges() {
    assert_eq!(arc_zone(0), Zone::Normal);
    assert_eq!(arc_zone(195), Zone::Normal);
    assert_eq!(arc_zone(196), Zone::Warning);
    assert_eq!(arc_zone(255), Zone::Warning);
    assert_eq!(arc_zone(256), Zone::Redline);
    assert_eq!(arc_zone(299), Zone::Redline);
}

#[test]
fn arc_zones_agree_with_the_float_fraction() {
    for i in 0..ARC_STEPS {
        let t = i as f32 / ARC_STEPS as f32;
        let expected = if t > 0.85 {
            Zone::Redline
        } else if t > 0.65 {
            Zone::Warning
        } else {
            Zone::Normal
        };
        assert_eq!(arc_zone(i), expected, "dot {}", i);
    }
}

#[test]
fn heavy_arc_dots_every_tenth_and_next() {
    assert!(arc_dot_is_heavy(0));
    assert!(arc_dot_is_heavy(1));
    assert!(!arc_dot_is_heavy(2));
    assert!(!arc_dot_is_heavy(9));
    assert!(arc_dot_is_heavy(10));
    assert!(arc_dot_is_heavy(291));
}

#[test]
fn red_labels_from_eight() {
    assert!(!label_is_red(0));
    assert!(!label_is_red(7));
    assert!(label_is_red(8));
    assert!(label_is_red(9));
}
