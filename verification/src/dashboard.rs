//! The car dashboard: gears, the boost indicator and the tachometer arc.
use vstd::prelude::*;

verus! {

/// Frames for which the boost banner stays lit after a beat.
pub const BOOST_FRAMES: u32 = 22;

/// Number of dots that draw the tachometer arc.
pub const ARC_STEPS: u32 = 300;

/// The gear for an engine speed: each gear covers a band of revolutions.
pub open spec fn gear_spec(rpm: u32) -> u8 {
    if rpm <= 1400 {
        1
    } else if rpm <= 2900 {
        2
    } else if rpm <= 4300 {
        3
    } else if rpm <= 5800 {
        4
    } else if rpm <= 7500 {
        5
    } else {
        6
    }
}

/// Picks the gear shown under the revolution readout.
pub fn gear_for_rpm(rpm: u32) -> (g: u8)
    ensures
        g == gear_spec(rpm),
        1 <= g <= 6,
{
    match rpm {
        0..=1400 => 1,
        1401..=2900 => 2,
        2901..=4300 => 3,
        4301..=5800 => 4,
        5801..=7500 => 5,
        _ => 6,
    }
}

/// Gears never go down as the engine speeds up.
pub proof fn lemma_gear_monotone(a: u32, b: u32)
    requires
        a <= b,
    ensures
        gear_spec(a) <= gear_spec(b),
{
}

/// The engine idles in first gear, reaches sixth by the redline, and shifts
/// one gear at a time: one more revolution never skips a gear.
pub proof fn lemma_gears_shift_one_at_a_time(rpm: u32)
    ensures
        gear_spec(0) == 1,
        gear_spec(9000) == 6,
        1 <= gear_spec(rpm) <= 6,
        rpm < u32::MAX ==> gear_spec(rpm) <= gear_spec((rpm + 1) as u32) <= gear_spec(rpm) + 1,
{
}

/// The boost countdown after one frame: a beat restarts it at
/// `BOOST_FRAMES`, and every frame then takes one away, down to zero.
pub open spec fn boost_next(timer: u32, beat: bool) -> u32 {
    let t = if beat { BOOST_FRAMES } else { timer };
    if t > 0 { (t - 1) as u32 } else { 0 }
}

/// Steps the boost countdown by one frame; the banner shows while the
/// result is positive, with a brightness proportional to it.
pub fn boost_step(timer: u32, beat: bool) -> (t: u32)
    ensures
        t == boost_next(timer, beat),
{
    let mut t = timer;
    if beat {
        t = BOOST_FRAMES;
    }
    if t > 0 {
        t = t - 1;
    }
    t
}

/// The countdown after `k` frames with no beat.
pub open spec fn boost_after(timer: u32, k: nat) -> u32
    decreases k,
{
    if k == 0 {
        timer
    } else {
        boost_next(boost_after(timer, (k - 1) as nat), false)
    }
}

/// After a beat the banner is lit for the beat's frame and the next 20
/// quiet frames, and dark from the 21st quiet frame on.
pub proof fn lemma_boost_lit_after_beat(timer: u32, k: nat)
    ensures
        k <= 20 ==> boost_after(boost_next(timer, true), k) == 21 - k,
        k >= 21 ==> boost_after(boost_next(timer, true), k) == 0,
    decreases k,
{
    if k > 0 {
        lemma_boost_lit_after_beat(timer, (k - 1) as nat);
    }
}

/// Color zone of a stretch of the tachometer arc.
#[derive(Clone, Copy, Debug, PartialEq, Eq, Structural)]
pub enum Zone {
    Normal,
    Warning,
    Redline,
}

/// Zone of arc dot `i` of `ARC_STEPS`: past 85% of the arc is the redline,
/// past 65% the warning band.
pub open spec fn arc_zone_spec(i: u32) -> Zone {
    if 20 * i > 17 * ARC_STEPS {
        Zone::Redline
    } else if 20 * i > 13 * ARC_STEPS {
        Zone::Warning
    } else {
        Zone::Normal
    }
}

/// Rank of a zone from calm to hot.
pub open spec fn zone_rank(z: Zone) -> int {
    match z {
        Zone::Normal => 0,
        Zone::Warning => 1,
        Zone::Redline => 2,
    }
}

/// Along the arc the zones only heat up: the arc starts normal, ends in the
/// redline, and a later dot is never in a calmer zone than an earlier one.
pub proof fn lemma_arc_heats_up(i: u32, j: u32)
    requires
        i <= j,
    ensures
        arc_zone_spec(0) == Zone::Normal,
        arc_zone_spec((ARC_STEPS - 1) as u32) == Zone::Redline,
        zone_rank(arc_zone_spec(i)) <= zone_rank(arc_zone_spec(j)),
        (arc_zone_spec(i) == Zone::Redline) <==> 100 * i > 85 * ARC_STEPS,
        (arc_zone_spec(i) == Zone::Normal) <==> 100 * i <= 65 * ARC_STEPS,
{
}

/// Picks the color zone of one dot of the tachometer arc.
pub fn arc_zone(i: u32) -> (z: Zone)
    ensures
        z == arc_zone_spec(i),
{
    let scaled: u64 = 20 * (i as u64);
    if scaled > 17 * (ARC_STEPS as u64) {
        Zone::Redline
    } else if scaled > 13 * (ARC_STEPS as u64) {
        Zone::Warning
    } else {
        Zone::Normal
    }
}

/// Every tenth dot of the arc and the one after it are drawn heavier.
pub fn arc_dot_is_heavy(i: u32) -> (b: bool)
    ensures
        b == (i % 10 <= 1),
{
    i % 10 == 0 || i % 10 == 1
}

/// The thousands labels 8 and 9 sit in the redline and are drawn red.
pub fn label_is_red(step: u32) -> (b: bool)
    ensures
        b == (step >= 8),
{
    step >= 8
}

} // verus!
