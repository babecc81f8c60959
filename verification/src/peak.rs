//! Peak hold: a meter's peak marker jumps up with the level, stays put for
//! a number of frames, then falls.
use vstd::prelude::*;

verus! {

/// What happens to the peak marker in one frame.
#[derive(Clone, Copy, Debug, PartialEq, Eq, Structural)]
pub enum PeakMove {
    /// The level rose above the marker: the marker jumps to the level.
    Capture,
    /// The marker stays where it is.
    Hold,
    /// The marker falls.
    Decay,
}

/// The hold countdown and the marker's move after one frame: a rise
/// captures and restarts the countdown at `hold`; otherwise a running
/// countdown ticks down while the marker holds, and a finished one lets it
/// fall.
pub open spec fn peak_next(rising: bool, timer: u32, hold: u32) -> (u32, PeakMove) {
    if rising {
        (hold, PeakMove::Capture)
    } else if timer > 0 {
        ((timer - 1) as u32, PeakMove::Hold)
    } else {
        (0, PeakMove::Decay)
    }
}

/// Steps a peak marker's hold countdown by one frame; `rising` tells
/// whether the level went above the marker.
pub fn peak_step(rising: bool, timer: u32, hold: u32) -> (r: (u32, PeakMove))
    ensures
        r == peak_next(rising, timer, hold),
{
    if rising {
        (hold, PeakMove::Capture)
    } else if timer > 0 {
        (timer - 1, PeakMove::Hold)
    } else {
        (0, PeakMove::Decay)
    }
}

/// The countdown after `k` frames in which the level stays below the marker.
pub open spec fn quiet_timer(timer: u32, hold: u32, k: nat) -> u32
    decreases k,
{
    if k == 0 {
        timer
    } else {
        peak_next(false, quiet_timer(timer, hold, (k - 1) as nat), hold).0
    }
}

/// The marker's move in quiet frame `k + 1`, counted from a countdown at
/// `timer`.
pub open spec fn quiet_move(timer: u32, hold: u32, k: nat) -> PeakMove {
    peak_next(false, quiet_timer(timer, hold, k), hold).1
}

/// Once captured, a peak marker holds through exactly `hold` quiet frames
/// and falls in every quiet frame after those.
pub proof fn lemma_peak_holds_then_falls(hold: u32, k: nat)
    ensures
        quiet_timer(hold, hold, k) == (if k <= hold { hold - k } else { 0 }),
        k < hold ==> quiet_move(hold, hold, k) == PeakMove::Hold,
        k >= hold ==> quiet_move(hold, hold, k) == PeakMove::Decay,
    decreases k,
{
    if k > 0 {
        lemma_peak_holds_then_falls(hold, (k - 1) as nat);
    }
}

/// The countdown never exceeds the hold time it was started with.
pub proof fn lemma_peak_timer_bounded(rising: bool, timer: u32, hold: u32)
    requires
        timer <= hold,
    ensures
        peak_next(rising, timer, hold).0 <= hold,
{
}

} // verus!
