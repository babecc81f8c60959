//! The start menu: which key picks which screen.
use vstd::prelude::*;

verus! {

/// The screens the visualizer can show.
#[derive(Clone, Copy, Debug, PartialEq, Eq, Structural)]
pub enum Mode {
    Classic,
    Car,
    Bars,
    Space,
    Plasma,
    Hallucination,
}

/// The screen picked by menu choice `c`, numbered from 1 in menu order.
pub open spec fn mode_spec(c: u8) -> Option<Mode> {
    if c == 1 {
        Some(Mode::Classic)
    } else if c == 2 {
        Some(Mode::Car)
    } else if c == 3 {
        Some(Mode::Bars)
    } else if c == 4 {
        Some(Mode::Space)
    } else if c == 5 {
        Some(Mode::Plasma)
    } else if c == 6 {
        Some(Mode::Hallucination)
    } else {
        None
    }
}

/// The screen for a menu choice; `None` for any other number (0 is what the
/// menu answers when it was interrupted).
pub fn mode_for_choice(c: u8) -> (m: Option<Mode>)
    ensures
        m == mode_spec(c),
{
    match c {
        1 => Some(Mode::Classic),
        2 => Some(Mode::Car),
        3 => Some(Mode::Bars),
        4 => Some(Mode::Space),
        5 => Some(Mode::Plasma),
        6 => Some(Mode::Hallucination),
        _ => None,
    }
}

/// The menu choice that a key press makes: the digits 1 to 6.
pub open spec fn choice_spec(key: char) -> Option<u8> {
    if '1' <= key && key <= '6' {
        Some((key as u32 - '0' as u32) as u8)
    } else {
        None
    }
}

/// Reads a key press in the menu: a digit from 1 to 6 picks that entry,
/// any other key is ignored.
pub fn choice_for_key(key: char) -> (c: Option<u8>)
    ensures
        c == choice_spec(key),
{
    match key {
        '1' => Some(1),
        '2' => Some(2),
        '3' => Some(3),
        '4' => Some(4),
        '5' => Some(5),
        '6' => Some(6),
        _ => None,
    }
}

/// Every screen has exactly one key: each digit 1 to 6 picks a screen, and
/// two different keys never pick the same one.
pub proof fn lemma_keys_pick_distinct_modes(k1: char, k2: char)
    requires
        choice_spec(k1) is Some,
        choice_spec(k2) is Some,
        k1 != k2,
    ensures
        mode_spec(choice_spec(k1)->0) is Some,
        mode_spec(choice_spec(k2)->0) is Some,
        mode_spec(choice_spec(k1)->0) != mode_spec(choice_spec(k2)->0),
{
}

} // verus!
