//! Which slice of the entry list is on screen, and how many whole cells and rows fit.
//!
//! The rule that shapes all of it: **entries never shrink to make the set fit**. The overlay is
//! capped at a fraction of the monitor and scrolls when the entries exceed it, rather than
//! scaling rows down until every one of them fits. The pixel arithmetic that scales by the
//! monitor's fractional scale factor is the renderer's; what is here is integer.

use vstd::prelude::*;

verus! {

/// The highlight never sits closer than this many entries to a scrolled edge, so the user can
/// always see where the list continues.
pub const SCROLL_MARGIN: usize = 1;

/// `a - b`, or zero when `b` is larger.
pub open spec fn less(a: int, b: int) -> int {
    if a > b {
        a - b
    } else {
        0
    }
}

/// How many whole cells fit across `width` once the padding is spent: one notional gap is added
/// back because the last column does not spend one. Never zero.
pub open spec fn columns_fitting(width: int, cell_width: int, gap: int, padding: int) -> int {
    if cell_width == 0 {
        1
    } else {
        let fit = (less(width, 2 * padding) + gap) / (cell_width + gap);
        if fit < 1 {
            1
        } else {
            fit
        }
    }
}

/// How many whole cells fit across `width` once the padding is spent. Never zero.
pub fn columns_that_fit(width: u32, cell_width: u32, gap: u32, padding: u32) -> (n: usize)
    requires
        2 * padding <= u32::MAX,
        less(width as int, 2 * padding) + gap <= u32::MAX,
        cell_width + gap <= u32::MAX,
    ensures
        n == columns_fitting(width as int, cell_width as int, gap as int, padding as int),
{
    if cell_width == 0 {
        return 1;
    }
    let available = width.saturating_sub(padding * 2) + gap;
    let fit = available / (cell_width + gap);
    if fit < 1 {
        1
    } else {
        fit as usize
    }
}

/// How many whole rows fit in `height` once the padding is spent. Never zero: an overlay showing
/// nothing at all would be worse than one that overflows a very short monitor.
pub open spec fn rows_fitting(height: int, row_height: int, padding: int) -> int {
    if row_height == 0 {
        1
    } else {
        let fit = less(height, 2 * padding) / row_height;
        if fit < 1 {
            1
        } else {
            fit
        }
    }
}

/// How many whole rows fit in `height` once the padding is spent. Never zero.
pub fn rows_that_fit(height: u32, row_height: u32, padding: u32) -> (n: usize)
    requires
        2 * padding <= u32::MAX,
    ensures
        n == rows_fitting(height as int, row_height as int, padding as int),
{
    if row_height == 0 {
        return 1;
    }
    let fit = height.saturating_sub(padding * 2) / row_height;
    if fit < 1 {
        1
    } else {
        fit as usize
    }
}

/// The first entry on screen, given where the viewport was before.
///
/// The previous position, kept within the list; pulled up when the highlight has come within the
/// margin of the top edge, pushed down when it has come within the margin of the bottom edge;
/// then held so that the highlight itself is on screen — the margin is the courtesy, visibility
/// the requirement — and the viewport does not run past the end of the list.
pub open spec fn viewport_first(rows: int, count: int, highlight: int, previous: int) -> int {
    if count <= rows {
        0
    } else {
        let last_first = count - rows;
        let kept = if previous < last_first {
            previous
        } else {
            last_first
        };
        let pulled = if highlight < kept + SCROLL_MARGIN {
            less(highlight, SCROLL_MARGIN as int)
        } else {
            kept
        };
        let pushed = if highlight + SCROLL_MARGIN >= pulled + rows {
            less(highlight + SCROLL_MARGIN + 1, rows)
        } else {
            pulled
        };
        let shown = if pushed < highlight {
            pushed
        } else {
            highlight
        };
        let shown = if shown > less(highlight + 1, rows) {
            shown
        } else {
            less(highlight + 1, rows)
        };
        if shown < last_first {
            shown
        } else {
            last_first
        }
    }
}

/// The index of the first entry on screen, given where the viewport was before.
///
/// Scrolling is stateful — it depends on which way the user came from — so the previous position
/// is an input rather than something recomputed.
pub fn first_visible(visible_rows: usize, entry_count: usize, highlight: usize, previous: usize) -> (first: usize)
    requires
        highlight + SCROLL_MARGIN + 1 <= usize::MAX,
        visible_rows > 0 || entry_count < usize::MAX,
    ensures
        first == viewport_first(visible_rows as int, entry_count as int, highlight as int, previous as int),
{
    if entry_count <= visible_rows {
        return 0;
    }
    let max_first = entry_count - visible_rows;
    let mut first = if previous < max_first {
        previous
    } else {
        max_first
    };
    // Scrolled up past the margin: pull the viewport up to restore it.
    if highlight < first + SCROLL_MARGIN {
        first = highlight.saturating_sub(SCROLL_MARGIN);
    }
    // Scrolled down past the margin: push it down.
    if highlight + SCROLL_MARGIN >= first + visible_rows {
        first = (highlight + SCROLL_MARGIN + 1).saturating_sub(visible_rows);
    }
    // A viewport shorter than twice the margin cannot honour it on both sides, and the margin
    // adjustments above can then push the highlight itself off screen. Visibility yields to
    // nothing.
    if highlight < first {
        first = highlight;
    }
    let floor = (highlight + 1).saturating_sub(visible_rows);
    if first < floor {
        first = floor;
    }
    if first < max_first {
        first
    } else {
        max_first
    }
}

/// The highlight is always on screen, the viewport never runs past the end of the list, and a
/// list that fits never scrolls — whatever the viewport was before.
pub proof fn law_highlight_stays_in_view(rows: int, count: int, highlight: int, previous: int)
    requires
        1 <= rows,
        0 <= highlight < count,
        0 <= previous,
    ensures
        0 <= viewport_first(rows, count, highlight, previous) <= highlight,
        highlight < viewport_first(rows, count, highlight, previous) + rows,
        count > rows ==> viewport_first(rows, count, highlight, previous) + rows <= count,
        count <= rows ==> viewport_first(rows, count, highlight, previous) == 0,
{
}

/// With room for the margin on both sides, the highlight keeps at least the margin's worth of
/// entries above and below it, except at the true ends of the list where there is nothing to
/// reveal.
pub proof fn law_margin_is_kept(rows: int, count: int, highlight: int, previous: int)
    requires
        rows > 2 * SCROLL_MARGIN,
        count > rows,
        0 <= highlight < count,
        0 <= previous,
    ensures
        highlight >= SCROLL_MARGIN ==> viewport_first(rows, count, highlight, previous) + SCROLL_MARGIN <= highlight,
        highlight + SCROLL_MARGIN < count ==> highlight + SCROLL_MARGIN < viewport_first(rows, count, highlight, previous) + rows,
{
}

/// A viewport that already shows the highlight with the margin kept stays where it is.
pub proof fn law_stationary_viewport(rows: int, count: int, highlight: int, previous: int)
    requires
        count > rows,
        0 <= previous <= count - rows,
        previous + SCROLL_MARGIN <= highlight,
        highlight + SCROLL_MARGIN < previous + rows,
    ensures
        viewport_first(rows, count, highlight, previous) == previous,
{
}

/// In a grid the viewport moves by whole rows: the first entry on screen, given how many columns
/// there are (at least one is assumed) — the list's rule applied to rows of cells.
pub open spec fn grid_first(columns: int, rows: int, count: int, highlight: int, previous: int) -> int {
    let c = if columns < 1 {
        1
    } else {
        columns
    };
    viewport_first(rows, (count + c - 1) / c, highlight / c, previous / c) * c
}

/// The first entry on screen in a presentation of `columns` columns and `visible_rows` rows: the
/// start of the first visible row.
pub fn first_visible_in(columns: usize, visible_rows: usize, entry_count: usize, highlight: usize, previous: usize) -> (first: usize)
    requires
        visible_rows >= 1,
        entry_count < usize::MAX,
        highlight < entry_count,
    ensures
        first == grid_first(columns as int, visible_rows as int, entry_count as int, highlight as int, previous as int),
        first <= highlight,
{
    let c = if columns < 1 {
        1
    } else {
        columns
    };
    let row_count = entry_count / c + if entry_count % c == 0 {
        0
    } else {
        1
    };
    proof {
        assert(row_count == (entry_count + c - 1) / (c as int)) by (nonlinear_arith)
            requires
                c >= 1,
                row_count == entry_count / c + if entry_count % c == 0 {
                    0int
                } else {
                    1int
                },
        ;
        assert(highlight / c < row_count) by (nonlinear_arith)
            requires
                c >= 1,
                highlight < entry_count,
                row_count == (entry_count + c - 1) / (c as int),
        ;
        assert(highlight / c <= highlight) by (nonlinear_arith)
            requires
                c >= 1,
        ;
    }
    let first_row = first_visible(visible_rows, row_count, highlight / c, previous / c);
    proof {
        law_highlight_stays_in_view(visible_rows as int, row_count as int, (highlight / c) as int, (previous / c) as int);
        assert(first_row * c <= highlight) by (nonlinear_arith)
            requires
                c >= 1,
                first_row <= highlight / c,
        ;
    }
    first_row * c
}

} // verus!
