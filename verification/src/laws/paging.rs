//! Scrolling within a page, and from page to page, in paged mode.

use vstd::prelude::*;

use super::lemma_rows;
use crate::geometry::{clamp, SCROLL_STEP};
use crate::model::Model;

verus! {

/// The lower edge of the page is reached, to half a pixel.
pub open spec fn at_bottom_edge(m: Model) -> bool {
    m.paged_y >= m.paged_limit().1 - 500_000
}

/// The upper edge of the page is reached, to half a pixel.
pub open spec fn at_top_edge(m: Model) -> bool {
    m.paged_y <= 500_000
}

/// The scroll position is within the page.
pub open spec fn within_page(m: Model) -> bool {
    &&& 0 <= m.paged_x <= m.paged_limit().0
    &&& 0 <= m.paged_y <= m.paged_limit().1
}

/// As long as there is room to scroll, the wheel scrolls within the page and stays
/// on it, however far it is turned.
pub proof fn law_the_wheel_stays_within_the_page(m: Model, delta_x: int, delta_y: int)
    requires
        delta_y < 0 ==> !at_bottom_edge(m),
        delta_y > 0 ==> !at_top_edge(m),
    ensures
        ({
            let after = m.paged_scroll(delta_x, delta_y, false);
            &&& after.current_row == m.current_row
            &&& after.window.current_page == m.window.current_page
            &&& after.paged_y == clamp(m.paged_y - delta_y, 0, m.paged_limit().1)
            &&& after.paged_x == clamp(m.paged_x - delta_x, 0, m.paged_limit().0)
            &&& within_page(after)
            &&& after.commands == m.commands
        }),
{
}

/// At the lower edge, turning the wheel further down goes on to the next page and
/// lands at its top.
pub proof fn law_paging_forward_lands_at_the_top(m: Model, delta_x: int, delta_y: int)
    requires
        m.wf(),
        m.current_row < m.last_row(),
        delta_y < 0,
        at_bottom_edge(m),
    ensures
        ({
            let after = m.paged_scroll(delta_x, delta_y, false);
            &&& after.current_row == m.current_row + 1
            &&& after.paged_x == 0
            &&& after.paged_y == 0
            &&& after.window.current_row_content == m.rows[m.current_row + 1]
        }),
{
    lemma_rows(m);
}

/// At the upper edge, turning the wheel further up goes back to the previous page
/// and lands at its bottom.
pub proof fn law_paging_back_lands_at_the_bottom(m: Model, delta_x: int, delta_y: int)
    requires
        m.wf(),
        m.current_row > 0,
        delta_y > 0,
        at_top_edge(m),
    ensures
        ({
            let after = m.paged_scroll(delta_x, delta_y, false);
            &&& after.current_row == m.current_row - 1
            &&& after.paged_x == 0
            &&& after.paged_y == after.paged_limit().1
            &&& after.window.current_row_content == m.rows[m.current_row - 1]
        }),
{
    lemma_rows(m);
}

/// The wheel goes neither before the first page nor past the last one.
pub proof fn law_the_wheel_stops_at_the_ends(m: Model, delta_y: int)
    requires
        m.wf(),
        delta_y < 0 ==> m.current_row == m.last_row(),
        delta_y > 0 ==> m.current_row == 0,
    ensures
        m.paged_scroll(0, delta_y, false).current_row == m.current_row,
{
}

/// With shift the wheel scrolls sideways, and never turns a page.
pub proof fn law_the_wheel_with_shift_never_pages(m: Model, delta_x: int, delta_y: int)
    ensures
        ({
            let after = m.paged_scroll(delta_x, delta_y, true);
            &&& after.current_row == m.current_row
            &&& after.window.current_page == m.window.current_page
            &&& after.paged_x == clamp(m.paged_x - delta_y, 0, m.paged_limit().0)
            &&& after.commands == m.commands
        }),
{
}

/// A page that fits the view leaves nothing to scroll: the wheel, and an arrow key,
/// turn the page straight away.
pub proof fn law_a_page_that_fits_pages_immediately(m: Model, delta_y: int)
    requires
        m.wf(),
        !m.continuous,
        within_page(m),
        m.paged_content().1 <= m.view_size().1,
    ensures
        delta_y < 0 && m.current_row < m.last_row() ==> m.paged_scroll(
            0,
            delta_y,
            false,
        ).current_row == m.current_row + 1,
        delta_y > 0 && m.current_row > 0 ==> m.paged_scroll(0, delta_y, false).current_row
            == m.current_row - 1,
        m.current_row < m.last_row() ==> m.nav_line(1).current_row == m.current_row + 1,
        m.current_row > 0 ==> m.nav_line(-1).current_row == m.current_row - 1,
{
    assert((-1) * SCROLL_STEP == -SCROLL_STEP) by (nonlinear_arith);
    assert(1 * SCROLL_STEP == SCROLL_STEP) by (nonlinear_arith);
}

/// A page turned by the wheel is turned back by the opposite turn, to where the
/// wheel left it: the lower edge.
pub proof fn law_paging_back_undoes_paging_forward(m: Model, down: int, up: int)
    requires
        m.wf(),
        m.current_row < m.last_row(),
        m.paged_y == m.paged_limit().1,
        down < 0 < up,
    ensures
        ({
            let after = m.paged_scroll(0, down, false).paged_scroll(0, up, false);
            &&& after.current_row == m.current_row
            &&& after.paged_y == m.paged_y
        }),
{
    lemma_rows(m);
    law_paging_forward_lands_at_the_top(m, 0, down);
}

/// In paged mode the toolbar shows the number of the left page of the row on show;
/// on the last row, that of the last page.
pub proof fn law_paged_mode_shows_the_page_number(m: Model, delta_x: int, delta_y: int)
    requires
        m.wf(),
        !m.continuous,
        m.pages.len() > 0,
        m.paged_scroll(delta_x, delta_y, false).current_row != m.current_row,
    ensures
        ({
            let after = m.paged_scroll(delta_x, delta_y, false);
            after.window.current_page == (if after.current_row == m.last_row() {
                m.pages.len() as int
            } else {
                m.specs()[after.current_row].left + 1
            })
        }),
{
    lemma_rows(m);
}

/// The published offset centers what is smaller than the view, and shows the page
/// from the scroll position on where it is larger, so that no part of the view is
/// left empty that a part of the page could fill.
pub proof fn law_paged_content_fills_or_centers(m: Model)
    ensures
        ({
            let after = m.push_paged_offsets();
            let window = after.window;
            let view = m.view_size();
            &&& within_page(after)
            &&& window.paged_content_w == m.paged_content().0
            &&& window.paged_content_h == m.paged_content().1
            &&& window.paged_content_w <= view.0 ==> 0 <= view.0 - window.paged_content_w - 2
                * window.paged_offset_x <= 1
            &&& window.paged_content_h <= view.1 ==> 0 <= view.1 - window.paged_content_h - 2
                * window.paged_offset_y <= 1
            &&& window.paged_content_w > view.0 ==> view.0 - window.paged_content_w
                <= window.paged_offset_x <= 0
            &&& window.paged_content_h > view.1 ==> view.1 - window.paged_content_h
                <= window.paged_offset_y <= 0
        }),
{
}

/// At the lower edge of the last row the wheel does nothing downwards, and at the upper
/// edge of the first row nothing upwards.
pub proof fn law_at_the_ends_the_wheel_does_nothing(m: Model, delta_y: int)
    requires
        m.wf(),
        within_page(m),
        delta_y != 0,
        delta_y < 0 ==> m.current_row == m.last_row() && at_bottom_edge(m),
        delta_y > 0 ==> m.current_row == 0 && at_top_edge(m),
    ensures
        m.paged_scroll(0, delta_y, false) == m,
{
}

/// In paged mode an arrow key is a turn of the wheel by 120 pixels: down for a positive
/// direction, up for a negative one.
pub proof fn law_arrow_keys_turn_the_wheel(m: Model, dir: int)
    requires
        !m.continuous,
    ensures
        dir == 1 ==> m.nav_line(dir) == m.paged_scroll(0, -120_000_000, false),
        dir == -1 ==> m.nav_line(dir) == m.paged_scroll(0, 120_000_000, false),
        dir == 0 ==> m.nav_line(dir) == m.paged_scroll(0, 0, false),
{
}

}
