//! Shade glyphs: the level of a cell picks one of a few block or dot glyphs.
use vstd::prelude::*;

verus! {

/// Shade level (0 to 3) of cell `i` of a bar that is `total` cells wide:
/// the quarter of the bar in which the cell lies. An empty bar puts cell 0
/// in the first quarter and every other cell in the last.
pub open spec fn block_level(i: int, total: int) -> int {
    if total == 0 {
        if i == 0 { 0 } else { 3 }
    } else if 4 * i / total >= 3 {
        3
    } else {
        4 * i / total
    }
}

/// The glyph for each shade level, from solid to light.
pub open spec fn shade_glyph(level: int) -> char {
    if level == 0 {
        '█'
    } else if level == 1 {
        '▓'
    } else if level == 2 {
        '▒'
    } else {
        '░'
    }
}

/// Glyph of cell `i` of the volume bar that is `total` cells wide: solid in
/// the first quarter, then darker, medium and light shade.
pub fn block_char(i: usize, total: usize) -> (c: char)
    ensures
        c == shade_glyph(block_level(i as int, total as int)),
{
    let level: u128 = if total == 0 {
        if i == 0 { 0 } else { 3 }
    } else {
        let q: u128 = (4 * (i as u128)) / (total as u128);
        if q >= 3 { 3 } else { q }
    };
    if level == 0 {
        '█'
    } else if level == 1 {
        '▓'
    } else if level == 2 {
        '▒'
    } else {
        '░'
    }
}

/// The glyph at the center of the orb for a loudness level (twentieths of
/// full scale, truncated).
pub open spec fn center_glyph_spec(level: u8) -> char {
    if level == 0 {
        '·'
    } else if level == 1 {
        '○'
    } else if level == 2 {
        '◎'
    } else if level <= 4 {
        '◉'
    } else if level <= 7 {
        '✦'
    } else {
        '✸'
    }
}

/// Picks the glyph at the center of the orb: a dot when silent, growing
/// rings, then stars as the level rises.
pub fn center_glyph(level: u8) -> (c: char)
    ensures
        c == center_glyph_spec(level),
        (c == '·') <==> level == 0,
        5 <= level <= 7 ==> c == '✦',
        level >= 8 ==> c == '✸',
{
    match level {
        0 => '·',
        1 => '○',
        2 => '◎',
        3..=4 => '◉',
        5..=7 => '✦',
        _ => '✸',
    }
}

/// Place of a center glyph on the ladder from silence to loud: dot, ring,
/// double ring, filled ring, small star, big star; -1 off the ladder.
pub open spec fn center_rank(c: char) -> int {
    if c == '·' {
        0
    } else if c == '○' {
        1
    } else if c == '◎' {
        2
    } else if c == '◉' {
        3
    } else if c == '✦' {
        4
    } else if c == '✸' {
        5
    } else {
        -1
    }
}

/// The center glyph climbs the ladder as the level rises and never falls
/// back: a louder level never shows a quieter glyph. The dot shows only in
/// silence, levels 5 to 7 show the small star, and every level shows a
/// glyph of the ladder.
pub proof fn lemma_center_glyph_climbs(a: u8, b: u8)
    requires
        a <= b,
    ensures
        0 <= center_rank(center_glyph_spec(a)) <= center_rank(center_glyph_spec(b)),
        (center_glyph_spec(a) == '·') <==> a == 0,
        5 <= a <= 7 ==> center_glyph_spec(a) == '✦',
        a >= 8 ==> center_glyph_spec(a) == '✸',
        a > 0 ==> center_rank(center_glyph_spec(a)) > 0,
{
}

/// The glyph that fills the orb for an energy level in quarters: levels 3
/// and 4 are solid, 2 and 1 darker and medium shade, anything else light.
pub open spec fn fill_glyph_spec(level: u8) -> char {
    if level == 3 || level == 4 {
        '█'
    } else if level == 2 {
        '▓'
    } else if level == 1 {
        '▒'
    } else {
        '░'
    }
}

/// Picks the glyph of one cell inside the orb from its energy level.
pub fn fill_glyph(level: u8) -> (c: char)
    ensures
        c == fill_glyph_spec(level),
{
    match level {
        3..=4 => '█',
        2 => '▓',
        1 => '▒',
        _ => '░',
    }
}

/// Place of a shade glyph from solid (0) to light (3); -1 for any other.
pub open spec fn shade_rank(c: char) -> int {
    if c == '█' {
        0
    } else if c == '▓' {
        1
    } else if c == '▒' {
        2
    } else if c == '░' {
        3
    } else {
        -1
    }
}

/// The volume bar is solid over its first quarter, light from its last
/// quarter on, and its shade never darkens again towards the right.
pub proof fn lemma_volume_bar_shades(i: int, j: int, total: int)
    requires
        0 <= i <= j,
        0 < total,
    ensures
        0 <= shade_rank(shade_glyph(block_level(i, total))) <= shade_rank(
            shade_glyph(block_level(j, total)),
        ) <= 3,
        (shade_glyph(block_level(i, total)) == '█') <==> 4 * i < total,
        (shade_glyph(block_level(i, total)) == '░') <==> 4 * i >= 3 * total,
{
    lemma_block_level_monotone(i, j, total);
    assert(4 * i / total == 0 <==> 4 * i < total) by (nonlinear_arith)
        requires
            0 <= i,
            0 < total,
    ;
    assert(4 * i / total >= 3 <==> 4 * i >= 3 * total) by (nonlinear_arith)
        requires
            0 <= i,
            0 < total,
    {
        if 4 * i >= 3 * total {
            vstd::arithmetic::div_mod::lemma_div_is_ordered(3 * total, 4 * i, total);
            vstd::arithmetic::div_mod::lemma_div_multiples_vanish(3, total);
        } else {
            vstd::arithmetic::div_mod::lemma_fundamental_div_mod(4 * i, total);
        }
    }
}

/// The orb's fill darkens as the energy level rises through 0 to 4, with
/// levels 3 and 4 solid; the glyph is always one of the four shades.
pub proof fn lemma_fill_glyph_darkens(a: u8, b: u8)
    requires
        a <= b <= 4,
    ensures
        0 <= shade_rank(fill_glyph_spec(b)) <= shade_rank(fill_glyph_spec(a)) <= 3,
        (fill_glyph_spec(a) == '█') <==> a >= 3,
        (fill_glyph_spec(a) == '░') <==> a == 0,
{
}

/// The shade of a bar cell never lightens from left to right.
pub proof fn lemma_block_level_monotone(i: int, j: int, total: int)
    requires
        0 <= i <= j,
        0 < total,
    ensures
        0 <= block_level(i, total) <= block_level(j, total) <= 3,
{
    assert(4 * i / total <= 4 * j / total) by (nonlinear_arith)
        requires
            0 <= i <= j,
            0 < total,
    {
        vstd::arithmetic::div_mod::lemma_div_is_ordered(4 * i, 4 * j, total);
    }
    assert(0 <= 4 * i / total) by (nonlinear_arith)
        requires
            0 <= i,
            0 < total,
    ;
}

} // verus!
