//! Which slice of the entry list is on screen, and how many rows and cells fit.

use hypr_swap::ui::layout::{columns_that_fit, first_visible, first_visible_in, rows_that_fit, SCROLL_MARGIN};

#[test]
fn a_list_that_fits_never_scrolls() {
    for highlight in 0..5 {
        assert_eq!(first_visible(10, 5, highlight, 0), 0);
    }
}

#[test]
fn scrolling_down_keeps_one_entry_below_the_highlight() {
    let rows = 5;
    let mut first = 0;
    for highlight in 0..20 {
        first = first_visible(rows, 20, highlight, first);
        let last_visible = first + rows - 1;
        assert!(
            (first..=last_visible).contains(&highlight),
            "highlight {highlight} outside {first}..={last_visible}"
        );
        if highlight + SCROLL_MARGIN < 20 {
            assert!(
                highlight + SCROLL_MARGIN <= last_visible,
                "highlight {highlight} sits flush against the bottom edge"
            );
        }
    }
}

#[test]
fn scrolling_back_up_keeps_one_entry_above_the_highlight() {
    let rows = 5;
    let mut first = 15;
    for highlight in (0..20).rev() {
        first = first_visible(rows, 20, highlight, first);
        let last_visible = first + rows - 1;
        assert!(
            (first..=last_visible).contains(&highlight),
            "highlight {highlight} outside {first}..={last_visible}"
        );
        if highlight >= SCROLL_MARGIN {
            assert!(
                highlight - SCROLL_MARGIN >= first,
                "highlight {highlight} sits flush against the top edge"
            );
        }
    }
}

#[test]
fn the_margin_is_dropped_at_the_true_ends_of_the_list() {
    // There is nothing above the first entry to keep in view.
    assert_eq!(first_visible(5, 20, 0, 10), 0);
    assert_eq!(first_visible(5, 20, 19, 0), 15, "the last full viewport");
}

#[test]
fn the_viewport_never_runs_past_the_end_of_the_list() {
    for highlight in 0..20 {
        for previous in [0, 5, 15, 19, 100] {
            let first = first_visible(5, 20, highlight, previous);
            assert!(first + 5 <= 20, "first {first} with highlight {highlight}");
        }
    }
}

#[test]
fn a_stationary_highlight_does_not_move_the_viewport() {
    // Reopening on the same entry must not jump the list around.
    assert_eq!(first_visible(5, 20, 10, 7), 7);
}

#[test]
fn wrapping_from_the_last_entry_to_the_first_scrolls_back_to_the_top() {
    let first = first_visible(5, 20, 19, 0);
    assert_eq!(first_visible(5, 20, 0, first), 0);
}

#[test]
fn a_viewport_too_small_for_the_margin_still_keeps_the_highlight_visible() {
    // A one-row viewport cannot honour a one-entry margin; visibility still wins.
    for highlight in 0..20 {
        let first = first_visible(1, 20, highlight, 0);
        assert_eq!(
            first, highlight,
            "highlight {highlight} must be the one row"
        );
    }
}

#[test]
fn the_highlight_is_in_view_for_every_count_and_row_count() {
    for rows in 1..8 {
        for count in [1, 2, 7, 20, 63] {
            let mut first = 0;
            for highlight in (0..count).chain((0..count).rev()) {
                first = first_visible(rows, count, highlight, first);
                assert!(
                    highlight >= first && highlight < first + rows,
                    "{rows}/{count}: highlight {highlight} outside {first}..{}",
                    first + rows
                );
            }
        }
    }
}

#[test]
fn whole_cells_and_rows_are_counted_after_the_padding() {
    // 1000 wide, 20 padding each side: 960 plus one gap of 10 is 970, over cells of 200 + 10.
    assert_eq!(columns_that_fit(1000, 200, 10, 20), 4);
    // A cell wider than the surface still leaves one column.
    assert_eq!(columns_that_fit(100, 200, 10, 20), 1);
    assert_eq!(columns_that_fit(100, 0, 10, 20), 1);
    // 700 high, 20 padding each side: 660 over rows of 60.
    assert_eq!(rows_that_fit(700, 60, 20), 11);
    assert_eq!(rows_that_fit(50, 60, 20), 1, "a monitor too short for a row still shows one");
    assert_eq!(rows_that_fit(50, 0, 20), 1);
}

#[test]
fn one_column_is_the_list_viewport() {
    let mut first = 0;
    for highlight in (0..20).chain((0..20).rev()) {
        let expected = first_visible(5, 20, highlight, first);
        first = first_visible_in(1, 5, 20, highlight, first);
        assert_eq!(first, expected, "highlight {highlight}");
    }
}

#[test]
fn a_grid_scrolls_by_whole_rows_and_keeps_the_highlight_in_view() {
    let (columns, rows) = (4, 3);
    let mut first = 0;
    for highlight in (0..40).chain((0..40).rev()) {
        first = first_visible_in(columns, rows, 40, highlight, first);
        assert_eq!(first % columns, 0, "highlight {highlight} split a row");
        assert!(
            highlight >= first && highlight < first + columns * rows,
            "highlight {highlight} outside {first}..{}",
            first + columns * rows
        );
    }
    for highlight in 0..12 {
        assert_eq!(first_visible_in(columns, rows, 12, highlight, 0), 0, "a grid that fits never scrolls");
    }
}

#[test]
fn the_margin_keeps_one_entry_on_each_side_away_from_the_ends() {
    let rows = 5;
    let mut first = 0;
    for highlight in SCROLL_MARGIN..(20 - SCROLL_MARGIN) {
        first = first_visible(rows, 20, highlight, first);
        assert!(first + SCROLL_MARGIN <= highlight);
        assert!(highlight + SCROLL_MARGIN < first + rows);
    }
}
