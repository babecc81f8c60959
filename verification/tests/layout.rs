use xvisual::layout::{
    bar_cell_glyph, bar_column, bar_layout, fall_rows, hint_start, menu_frame, menu_padding,
    peak_row, rise_rows, title_start, volume_bar_width, BarLayout, MenuFrame,
};

#[test]
fn titles_are_centered_or_pinned_left() {
    assert_eq!(title_start(80, 12), 34);
    assert_eq!(title_start(81, 12), 34);
    assert_eq!(title_start(10, 30), 0);
    assert_eq!(title_start(0, 0), 0);
}

#[test]
fn quit_hint_sits_eight_from_the_right() {
    assert_eq!(hint_start(80), 72);
    assert_eq!(hint_start(8), 0);
    assert_eq!(hint_start(5), 0);
}

#[test]
fn volume_bar_leaves_twenty_cells() {
    assert_eq!(volume_bar_width(80), 60);
    assert_eq!(volume_bar_width(20), 0);
    assert_eq!(volume_bar_width(10), 0);
}

#[test]
fn equalizer_layout_on_a_standard_terminal() {
    assert_eq!(
        bar_layout(80, 24),
        BarLayout { count: 38, margin: 2, center: 12, max_height: 10 }
    );
}

#[test]
fn equalizer_layout_clamps_bar_count() {
    assert_eq!(
        bar_layout(10, 3),
        BarLayout { count: 8, margin: 0, center: 1, max_height: 0 }
    );
    assert_eq!(
        bar_layout(200, 50),
        BarLayout { count: 64, margin: 36, center: 25, max_height: 23 }
    );
    assert_eq!(bar_layout(0, 0).count, 8);
}

#[test]
fn bars_stand_two_columns_apart() {
    let l = bar_layout(80, 24);
    assert_eq!(bar_column(&l, 0), 2);
    assert_eq!(bar_column(&l, 3), 8);
    assert_eq!(bar_column(&l, 37), 76);
}

#[test]
fn upper_half_rises_from_the_center_line() {
    assert_eq!(rise_rows(12, 3), vec![11, 10, 9]);
    assert_eq!(rise_rows(3, 5), vec![2, 1]);
    assert_eq!(rise_rows(1, 5), Vec::<u16>::new());
    assert_eq!(rise_rows(0, 3), Vec::<u16>::new());
    assert_eq!(rise_rows(12, 0), Vec::<u16>::new());
}

#[test]
fn lower_half_mirrors_below_the_center_line() {
    assert_eq!(fall_rows(12, 24, 3), vec![13, 14, 15]);
    assert_eq!(fall_rows(12, 15, 5), vec![13]);
    assert_eq!(fall_rows(12, 14, 5), Vec::<u16>::new());
    assert_eq!(fall_rows(12, 24, 20).len(), 10);
}

#[test]
fn bar_tips_are_half_blocks() {
    assert_eq!(bar_cell_glyph(2, 3, true), '▀');
    assert_eq!(bar_cell_glyph(2, 3, false), '▄');
    assert_eq!(bar_cell_glyph(0, 3, true), '█');
    assert_eq!(bar_cell_glyph(0, 1, false), '▄');
    assert_eq!(bar_cell_glyph(0, 0, true), '█');
}

#[test]
fn peak_marker_above_a_lower_bar() {
    assert_eq!(peak_row(12, 5, 3), Some(6));
    assert_eq!(peak_row(12, 10, 3), Some(1));
    assert_eq!(peak_row(12, 11, 3), None);
    assert_eq!(peak_row(12, 3, 3), None);
    assert_eq!(peak_row(12, 2, 3), None);
    assert_eq!(peak_row(12, 0, 0), None);
}

#[test]
fn menu_box_is_centered() {
    assert_eq!(menu_frame(80, 24, 6), MenuFrame { left: 25, top: 7, bottom: 16 });
    assert_eq!(menu_frame(20, 6, 6), MenuFrame { left: 0, top: 0, bottom: 9 });
}

#[test]
fn menu_rows_pad_to_the_box_width() {
    assert_eq!(menu_padding(10), 18);
    assert_eq!(menu_padding(7 + "Classic Orb".len()), 10);
    assert_eq!(menu_padding(28), 0);
    assert_eq!(menu_padding(40), 0);
}

#[test]
fn bars_up_to_full_height_are_mirrored_whole() {
    for rows in 0..80u16 {
        for &cols in &[10u16, 80, 200] {
            let l = bar_layout(cols, rows);
            for h in 0..=l.max_height {
                assert_eq!(rise_rows(l.center, h).len(), h);
                assert_eq!(fall_rows(l.center, rows, h).len(), h);
            }
        }
    }
}

#[test]
fn lower_half_is_empty_below_a_short_screen() {
    assert_eq!(fall_rows(12, 5, 3), Vec::<u16>::new());
    assert_eq!(fall_rows(0, 0, 3), Vec::<u16>::new());
    assert_eq!(fall_rows(0, 3, 3), vec![1]);
}
