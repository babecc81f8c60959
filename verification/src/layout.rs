//! Where things go on the terminal: titles, the quit hint, the menu box and
//! the columns of the bar equalizer.
use vstd::prelude::*;

verus! {

/// Column where a title of `len` cells starts so that it sits centered on
/// a screen `cols` wide; pinned to the left edge when it does not fit.
pub open spec fn title_start_spec(cols: u16, len: u16) -> u16 {
    if cols / 2 >= len / 2 { (cols / 2 - len / 2) as u16 } else { 0 }
}

/// Column at which a centered title of `len` cells starts.
pub fn title_start(cols: u16, len: u16) -> (x: u16)
    ensures
        x == title_start_spec(cols, len),
{
    (cols / 2).saturating_sub(len / 2)
}

/// A title that fits is centered: as many of its cells lie left of the
/// screen's middle column as half its width, so its start and its middle
/// sit symmetrically; one wider than the screen starts at the left edge.
pub proof fn lemma_title_centered(cols: u16, len: u16)
    ensures
        len <= cols ==> title_start_spec(cols, len) + len / 2 == cols / 2,
        title_start_spec(cols, len) <= cols / 2,
        len / 2 > cols / 2 ==> title_start_spec(cols, len) == 0,
{
}

/// Column of the quit hint in the top right corner: eight cells from the
/// right edge, or the left edge on a narrower screen.
pub fn hint_start(cols: u16) -> (x: u16)
    ensures
        x == (if cols >= 8 { cols - 8 } else { 0 }),
{
    cols.saturating_sub(8)
}

/// Cells of the volume bar under the orb: the width less twenty cells for
/// its label and readout, none on a narrow screen.
pub fn volume_bar_width(cols: u16) -> (w: usize)
    ensures
        w == (if cols >= 20 { cols - 20 } else { 0 }),
{
    (cols as usize).saturating_sub(20)
}

/// The columns of the equalizer on one screen.
#[derive(Clone, Copy, Debug, PartialEq, Eq, Structural)]
pub struct BarLayout {
    /// Number of bars, two columns each.
    pub count: usize,
    /// Empty columns left of the first bar.
    pub margin: usize,
    /// Row of the center line.
    pub center: u16,
    /// Height of a bar at full level.
    pub max_height: usize,
}

/// Bars for a screen `cols` wide: one per two columns after a four-column
/// border, never fewer than 8 nor more than 64.
pub open spec fn bar_count_spec(cols: u16) -> int {
    let fit = if cols >= 4 { (cols - 4) / 2 } else { 0 };
    if fit < 8 { 8 } else if fit > 64 { 64 } else { fit }
}

/// The layout of the equalizer: bars centered, the center line halfway
/// down, bars reaching two rows short of it above.
pub open spec fn bar_layout_spec(cols: u16, rows: u16) -> BarLayout {
    let count = bar_count_spec(cols);
    BarLayout {
        count: count as usize,
        margin: (if cols >= 2 * count { (cols - 2 * count) / 2 } else { 0 }) as usize,
        center: (rows / 2) as u16,
        max_height: (if rows / 2 >= 2 { rows / 2 - 2 } else { 0 }) as usize,
    }
}

/// Lays out the equalizer for a screen of `cols` by `rows`.
pub fn bar_layout(cols: u16, rows: u16) -> (l: BarLayout)
    ensures
        l == bar_layout_spec(cols, rows),
        8 <= l.count <= 64,
{
    let fit = (cols as usize).saturating_sub(4) / 2;
    let count: usize = if fit < 8 { 8 } else if fit > 64 { 64 } else { fit };
    let margin = (cols as usize).saturating_sub(count * 2) / 2;
    let center = rows / 2;
    let max_height = center.saturating_sub(2) as usize;
    BarLayout { count, margin, center, max_height }
}

/// Left column of bar `i`: two columns per bar after the margin, as a
/// terminal column (which wraps past the largest column).
pub fn bar_column(l: &BarLayout, i: usize) -> (x: u16)
    requires
        l.margin + 2 * i <= usize::MAX,
    ensures
        x == (l.margin + 2 * i) as u16,
{
    (l.margin + i * 2) as u16
}

/// Cells of the upper half of a bar `height` cells tall that fit between
/// the center line `center` and the title row.
pub open spec fn rise_len(center: u16, height: usize) -> int {
    let room = if center >= 1 { center - 1 } else { 0 };
    if height <= room { height as int } else { room }
}

/// Cells of the lower half of a bar `height` cells tall that fit between
/// the center line `center` and the bottom row of a screen `rows` tall.
pub open spec fn fall_len(center: u16, rows: u16, height: usize) -> int {
    let room = if rows >= center + 2 { rows - center - 2 } else { 0 };
    if height <= room { height as int } else { room }
}

/// Rows of the upper half of a bar `height` cells tall above the center
/// line `center`: cell `h` sits `h + 1` rows above the line, and the bar is
/// cut off below the title row.
pub fn rise_rows(center: u16, height: usize) -> (rows: Vec<u16>)
    ensures
        rows@.len() == rise_len(center, height),
        forall|h: int| 0 <= h < rows@.len() ==> #[trigger] rows@[h] == center - 1 - h,
        forall|h: int| 0 <= h < rows@.len() ==> #[trigger] rows@[h] >= 1,
{
    let room = center.saturating_sub(1) as usize;
    let n = if height <= room { height } else { room };
    let mut out: Vec<u16> = Vec::new();
    let mut h: usize = 0;
    while h < n
        invariant
            n <= room,
            room == (if center >= 1 { center - 1 } else { 0 }),
            h <= n,
            out@.len() == h,
            forall|k: int| 0 <= k < h ==> #[trigger] out@[k] == center - 1 - k,
        decreases n - h,
    {
        out.push(center - 1 - h as u16);
        h = h + 1;
    }
    out
}

/// Rows of the mirrored lower half of a bar `height` cells tall: cell `h`
/// sits `h + 1` rows below the center line, cut off above the bottom row of
/// a screen `rows` tall.
pub fn fall_rows(center: u16, rows: u16, height: usize) -> (out: Vec<u16>)
    ensures
        out@.len() == fall_len(center, rows, height),
        forall|h: int| 0 <= h < out@.len() ==> #[trigger] out@[h] == center + 1 + h,
        forall|h: int| 0 <= h < out@.len() ==> #[trigger] out@[h] + 1 < rows,
{
    let room: usize = if rows >= 2 && rows - 2 >= center { (rows - 2 - center) as usize } else {
        0
    };
    let n = if height <= room { height } else { room };
    let mut out: Vec<u16> = Vec::new();
    let mut h: usize = 0;
    while h < n
        invariant
            n <= room,
            room == (if rows >= center + 2 { rows - center - 2 } else { 0 }),
            h <= n,
            out@.len() == h,
            forall|k: int| 0 <= k < h ==> #[trigger] out@[k] == center + 1 + k,
        decreases n - h,
    {
        out.push(center + 1 + h as u16);
        h = h + 1;
    }
    out
}

/// On the equalizer's own layout every bar up to the full height is drawn
/// whole and mirrored: both halves get all of its cells.
pub proof fn lemma_bars_mirror_whole(cols: u16, rows: u16, height: usize)
    requires
        height <= bar_layout_spec(cols, rows).max_height,
    ensures
        rise_len(bar_layout_spec(cols, rows).center, height) == height,
        fall_len(bar_layout_spec(cols, rows).center, rows, height) == height,
{
}

/// The glyph of cell `h` of a bar `height` cells tall: the outermost cell
/// is a half block (`upper` for the upper half), the others full blocks.
pub fn bar_cell_glyph(h: usize, height: usize, upper: bool) -> (c: char)
    ensures
        c == (if h + 1 == height {
            if upper { '▀' } else { '▄' }
        } else {
            '█'
        }),
{
    if height >= 1 && h == height - 1 {
        if upper { '▀' } else { '▄' }
    } else {
        '█'
    }
}

/// Row of the peak marker of a bar: shown only above a bar lower than the
/// peak, `peak + 1` rows above the center line, and not on the title row.
pub open spec fn peak_row_spec(center: u16, peak: usize, height: usize) -> Option<u16> {
    if peak > height && peak > 0 && peak + 2 <= center {
        Some((center - 1 - peak) as u16)
    } else {
        None
    }
}

/// Places the peak-hold marker of a bar.
pub fn peak_row(center: u16, peak: usize, height: usize) -> (r: Option<u16>)
    ensures
        r == peak_row_spec(center, peak, height),
        peak > height && peak + 2 <= center ==> r == Some((center - 1 - peak) as u16),
        r is None <==> (peak <= height || peak + 2 > center),
{
    if peak > height && peak > 0 && peak <= center as usize && center as usize - peak >= 2 {
        Some(center - 1 - peak as u16)
    } else {
        None
    }
}

/// The peak marker shows exactly when the held peak is above the bar and
/// its row stays below the title row, at `peak + 1` rows above the center
/// line; the bar's height matters only through `peak > height`, so a peak
/// held over a silent bar (height 0) is still drawn.
pub proof fn lemma_peak_marker_placement(center: u16, peak: usize, height: usize)
    ensures
        peak > height && peak + 2 <= center ==> peak_row_spec(center, peak, height) == Some(
            (center - 1 - peak) as u16,
        ),
        peak_row_spec(center, peak, height) is None <==> (peak <= height || peak + 2 > center),
        peak_row_spec(center, peak, height) matches Some(row) ==> row + peak + 1 == center && row
            >= 1,
{
}

/// Two bars with the same held peak differ in their marker only through
/// whether each bar is below the peak: lowering a bar never hides a marker.
pub proof fn lemma_peak_marker_survives_lower_bar(center: u16, peak: usize, h1: usize, h2: usize)
    requires
        h1 <= h2,
        peak_row_spec(center, peak, h2) is Some,
    ensures
        peak_row_spec(center, peak, h1) == peak_row_spec(center, peak, h2),
{
}

/// Inner width of the menu box.
pub const MENU_INNER: u16 = 28;

/// The menu box on a screen.
#[derive(Clone, Copy, Debug, PartialEq, Eq, Structural)]
pub struct MenuFrame {
    /// Column of the left border.
    pub left: u16,
    /// Row of the top border.
    pub top: u16,
    /// Row of the bottom border.
    pub bottom: u16,
}

/// The menu box for `entries` entries: centered, with a title row and a
/// rule above the entries and the bottom border right after them.
pub open spec fn menu_frame_spec(cols: u16, rows: u16, entries: u16) -> MenuFrame {
    let half_box = (MENU_INNER + 2) / 2;
    let half_height = (entries + 4) / 2;
    let left = if cols / 2 >= half_box { cols / 2 - half_box } else { 0 };
    let top = if rows / 2 >= half_height { rows / 2 - half_height } else { 0 };
    MenuFrame { left: left as u16, top: top as u16, bottom: (top + 3 + entries) as u16 }
}

/// The menu box is centered: on a screen that holds it, its left border
/// is half the box width left of the middle column and its middle row is
/// at the screen's middle; the bottom border is `entries + 3` rows below the
/// top one, leaving the title row, the rule and one row per entry.
pub proof fn lemma_menu_centered(cols: u16, rows: u16, entries: u16)
    requires
        entries + 4 <= u16::MAX,
    ensures
        cols >= MENU_INNER + 2 ==> menu_frame_spec(cols, rows, entries).left + (MENU_INNER + 2) / 2
            == cols / 2,
        rows >= entries + 4 ==> menu_frame_spec(cols, rows, entries).top + (entries + 4) / 2
            == rows / 2,
        menu_frame_spec(cols, rows, entries).top + 3 + entries <= u16::MAX ==> menu_frame_spec(
            cols,
            rows,
            entries,
        ).bottom == menu_frame_spec(cols, rows, entries).top + 3 + entries,
{
}

/// Lays out the menu box for `entries` entries on a `cols` by `rows`
/// screen.
pub fn menu_frame(cols: u16, rows: u16, entries: u16) -> (f: MenuFrame)
    requires
        entries + 4 <= u16::MAX,
        menu_frame_spec(cols, rows, entries).top + 3 + entries <= u16::MAX,
    ensures
        f == menu_frame_spec(cols, rows, entries),
        f.top + 3 + entries == f.bottom,
{
    let left = (cols / 2).saturating_sub((MENU_INNER + 2) / 2);
    let top = (rows / 2).saturating_sub((entries + 4) / 2);
    MenuFrame { left, top, bottom: top + 3 + entries }
}

/// Spaces that pad a menu row after `used` cells of text to the inner
/// width of the box.
pub fn menu_padding(used: usize) -> (p: usize)
    ensures
        p == (if used <= MENU_INNER { MENU_INNER - used } else { 0 }),
{
    (MENU_INNER as usize).saturating_sub(used)
}

} // verus!
