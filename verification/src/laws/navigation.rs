//! Where the keys, the toolbar and the list lead.

use vstd::prelude::*;

use super::lemma_rows;
use crate::geometry::{clamp, lemma_nearest_row, nearest_row, SCROLL_STEP};
use crate::layout::{law_each_page_has_one_place, law_rows_keep_page_order, max, min};
use crate::model::Model;
use crate::text::{integer, trimmed};

verus! {

/// Home goes to the start of the first page, which the toolbar then shows.
///
/// Left out are the documents that start at their end: in paged mode a single
/// spread, in continuous mode a document that can be scrolled, but by no more than a
/// pixel. There the toolbar shows the last page.
pub proof fn law_home_goes_to_the_first_page(m: Model)
    requires
        m.wf(),
        m.pages.len() > 0,
        m.continuous ==> m.scroll_limit() == 0 || m.scroll_limit() > 1_000_000,
        !m.continuous ==> m.specs().len() > 1 || m.pages.len() == 1,
    ensures
        ({
            let after = m.nav_home();
            &&& after.current_row == 0
            &&& after.window.current_page == 1
            &&& m.continuous ==> after.scroll == 0 && after.window.scroll_y == 0
            &&& !m.continuous ==> after.paged_x == 0 && after.paged_y == 0
        }),
{
    lemma_rows(m);
    law_rows_keep_page_order(m.pages.len() as int, m.spread);
    assert(0 * m.pitch() == 0);
}

/// End goes to the very bottom of the document, and the toolbar then shows the
/// last page, whatever the spread mode, and whether or not there is anything to
/// scroll.
pub proof fn law_end_reaches_the_last_page(m: Model)
    requires
        m.wf(),
        m.pages.len() > 0,
    ensures
        ({
            let after = m.nav_end();
            &&& after.current_row == m.last_row()
            &&& after.window.current_page == m.pages.len()
            &&& m.continuous ==> after.scroll == m.scroll_limit() && after.window.scroll_y
                == -m.scroll_limit()
        }),
{
    lemma_rows(m);
    law_rows_keep_page_order(m.pages.len() as int, m.spread);
}

/// Going to a page shows it: its row is the current one, at the top of the view,
/// and unless the view has reached the end of the document the toolbar shows the
/// number of the row's left page, which is the page itself or its neighbor.
pub proof fn law_going_to_a_page_shows_it(m: Model, page: int)
    requires
        m.wf(),
        0 <= page < m.pages.len(),
    ensures
        ({
            let after = m.nav_to_page(page);
            let spec = m.specs()[after.current_row];
            &&& 0 <= after.current_row < m.specs().len()
            &&& spec.left == page || spec.right == Some(page as usize)
            &&& after.scroll == after.current_row * m.pitch()
            &&& m.continuous ==> after.window.scroll_y == -after.scroll
            &&& !m.continuous ==> after.paged_x == 0 && after.paged_y == 0
            &&& after.window.current_page == (if after.at_end() {
                m.pages.len() as int
            } else {
                spec.left + 1
            })
        }),
{
    lemma_rows(m);
    law_each_page_has_one_place(m.pages.len() as int, m.spread, page);
}

/// A page number that is out of range leads to the nearest page there is.
pub proof fn law_out_of_range_pages_are_clamped(m: Model, page: int)
    requires
        m.pages.len() > 0,
    ensures
        page < 0 ==> m.nav_to_page(page) == m.nav_to_page(0),
        page >= m.pages.len() ==> m.nav_to_page(page) == m.nav_to_page(m.pages.len() - 1),
{
}

/// What is typed into the toolbar leads to the page of that number, white space
/// around it aside, and to nothing at all if it is not a number.
pub proof fn law_typed_numbers_lead_to_their_page(m: Model, text: Seq<char>)
    ensures
        integer(trimmed(text)) is None ==> m.go_to_page(text) == m,
        integer(trimmed(text)) matches Some(number) ==> m.go_to_page(text) == m.nav_to_page(
            number - 1,
        ),
{
}

/// A scroll offset that is the top of a row.
pub open spec fn at_row_top(m: Model, row: int) -> bool {
    &&& 0 <= row <= m.last_row()
    &&& m.scroll == row * m.pitch()
}

/// From the top of a row, page down goes to the top of the next row and page up to
/// that of the row before, but not past the first or last one.
pub proof fn law_page_keys_move_one_row(m: Model, row: int)
    requires
        m.wf(),
        m.pages.len() > 0,
        m.continuous ==> at_row_top(m, row),
        !m.continuous ==> m.current_row == row,
    ensures
        ({
            let down = m.nav_page(1);
            let up = m.nav_page(-1);
            &&& down.current_row == min(row + 1, m.last_row())
            &&& up.current_row == max(row - 1, 0)
            &&& at_row_top(down, down.current_row)
            &&& at_row_top(up, up.current_row)
        }),
{
    lemma_rows(m);
    if m.continuous {
        lemma_row_top(row, m.pitch());
    }
}

/// Page up takes page down back, where page down went anywhere.
pub proof fn law_page_up_undoes_page_down(m: Model, row: int)
    requires
        m.wf(),
        m.pages.len() > 0,
        m.continuous ==> at_row_top(m, row),
        !m.continuous ==> m.current_row == row,
        row < m.last_row(),
    ensures
        m.nav_page(1).nav_page(-1).current_row == row,
        at_row_top(m.nav_page(1).nav_page(-1), row),
{
    lemma_rows(m);
    law_page_keys_move_one_row(m, row);
    let down = m.nav_page(1);
    assert(down.pitch() == m.pitch());
    if m.continuous {
        lemma_row_top(row + 1, m.pitch());
    }
}

/// Scrolled partway into a row (by more than a hundredth of it), page up snaps to
/// the top of that row, and page down goes on to the next one.
pub proof fn law_page_up_snaps_to_the_start_of_a_page(m: Model, row: int)
    requires
        m.wf(),
        m.pages.len() > 0,
        m.continuous,
        0 <= row <= m.last_row(),
        row * m.pitch() + m.pitch() / 100 < m.scroll < (row + 1) * m.pitch(),
    ensures
        m.nav_page(-1).current_row == row,
        at_row_top(m.nav_page(-1), row),
        m.nav_page(1).current_row == min(row + 1, m.last_row()),
{
    lemma_rows(m);
    let part = m.scroll - row * m.pitch();
    assert((row + 1) * m.pitch() == row * m.pitch() + m.pitch()) by (nonlinear_arith);
    vstd::arithmetic::div_mod::lemma_fundamental_div_mod_converse(m.scroll, m.pitch(), row, part);
}

/// The top of a row, divided by the height of a row.
proof fn lemma_row_top(row: int, pitch: int)
    requires
        0 <= row,
        0 < pitch,
    ensures
        (row * pitch) / pitch == row,
        (row * pitch) % pitch == 0,
{
    vstd::arithmetic::div_mod::lemma_fundamental_div_mod_converse(row * pitch, pitch, row, 0);
}

/// In continuous mode the arrow keys scroll by the same step wherever the view is,
/// as far as the document goes, and change neither the current row nor anything
/// that was rendered.
pub proof fn law_arrow_keys_scroll_by_a_uniform_step(m: Model, dir: int)
    requires
        m.wf(),
        m.continuous,
    ensures
        ({
            let after = m.nav_line(dir);
            &&& after.scroll == clamp(m.scroll + dir * 120_000_000, 0, m.scroll_limit())
            &&& 0 <= after.scroll <= m.scroll_limit()
            &&& after.window.scroll_y == -after.scroll
            &&& after.current_row == m.current_row
            &&& after.rows == m.rows
            &&& after.generation == m.generation
            &&& m.pages.len() > 0 && !after.at_end() ==> after.window.current_page
                == m.specs()[m.current_row].left + 1
        }),
{
    lemma_rows(m);
}

/// An arrow key takes the opposite one back, unless the edge of the document was
/// in the way.
pub proof fn law_opposite_arrow_keys_cancel(m: Model, dir: int)
    requires
        m.wf(),
        m.continuous,
        m.scroll <= m.scroll_limit(),
        0 <= m.scroll + dir * 120_000_000 <= m.scroll_limit(),
    ensures
        m.nav_line(dir).nav_line(-dir).scroll == m.scroll,
{
    assert((-dir) * SCROLL_STEP == -(dir * SCROLL_STEP)) by (nonlinear_arith);
    assert(m.nav_line(dir).scroll_limit() == m.scroll_limit());
}

/// A list that was scrolled to the top of a row reports that row's page. So what a
/// jump to a row does is what scrolling there by hand does.
pub proof fn law_scrolling_reports_the_page_at_the_top(m: Model, row: int)
    requires
        m.wf(),
        0 <= row < m.specs().len(),
    ensures
        ({
            let after = m.scrolled(row * m.pitch());
            &&& after.current_row == row
            &&& after.scroll == row * m.pitch()
            &&& !after.at_end() ==> after.window.current_page == m.specs()[row].left + 1
            &&& after.at_end() ==> after.window.current_page == m.pages.len()
        }),
{
    lemma_rows(m);
    lemma_row_top(row, m.pitch());
    assert(row * m.pitch() >= 0) by (nonlinear_arith)
        requires
            row >= 0,
            m.pitch() > 0,
    ;
    if row > 0 {
        assert(row * m.pitch() > 0) by (nonlinear_arith)
            requires
                row > 0,
                m.pitch() > 0,
        ;
        lemma_nearest_row(row * m.pitch(), m.pitch());
    } else {
        assert(0 * m.pitch() == 0);
    }
    assert(nearest_row(row * m.pitch(), m.pitch()) == row);
}

/// Wherever the list is scrolled to, the current row is the one whose top is
/// nearest: it is no more than half a row away, unless the list is above the first
/// or below the last row.
pub proof fn law_the_current_row_is_the_nearest(m: Model, offset: int)
    requires
        m.wf(),
        m.pages.len() > 0,
        0 <= offset <= m.last_row() * m.pitch(),
    ensures
        ({
            let top = m.scrolled(offset).current_row * m.pitch();
            -m.pitch() <= 2 * (top - offset) <= m.pitch()
        }),
{
    lemma_rows(m);
    let pitch = m.pitch();
    if offset > 0 {
        lemma_nearest_row(offset, pitch);
        vstd::arithmetic::div_mod::lemma_fundamental_div_mod(offset, pitch);
        let q = offset / pitch;
        assert(pitch * q == q * pitch) by (nonlinear_arith);
        assert((q + 1) * pitch == q * pitch + pitch) by (nonlinear_arith);
        if q >= m.last_row() {
            assert(q * pitch >= m.last_row() * pitch) by (nonlinear_arith)
                requires
                    q >= m.last_row(),
                    pitch > 0,
            ;
            assert(q > m.last_row() ==> q * pitch >= m.last_row() * pitch + pitch)
                by (nonlinear_arith)
                requires
                    q >= m.last_row(),
                    pitch > 0,
            ;
        }
    } else {
        assert(0 * pitch == 0);
    }
}

/// In continuous mode a page key goes by the row that the upper edge of the view is in:
/// down, to the row below it; up, to its own start where more than a hundredth of it is
/// scrolled past, and to the row above where it is not. The ends of the document stop
/// it.
pub proof fn law_page_keys_go_by_the_row_at_the_top(m: Model, row: int, dir: int)
    requires
        m.wf(),
        m.pages.len() > 0,
        m.continuous,
        row * m.pitch() <= m.scroll < (row + 1) * m.pitch(),
    ensures
        ({
            let after = m.nav_page(dir);
            let last = m.specs().len() - 1;
            let past = m.scroll - row * m.pitch();
            &&& after.scroll == after.current_row * m.pitch()
            &&& dir > 0 ==> after.current_row == if row < last {
                row + 1
            } else {
                last
            }
            &&& dir <= 0 && 100 * past > m.pitch() ==> after.current_row == if row < last {
                row
            } else {
                last
            }
            &&& dir <= 0 && 100 * past <= m.pitch() ==> after.current_row == if row == 0 {
                0
            } else if row - 1 < last {
                row - 1
            } else {
                last
            }
        }),
{
    lemma_rows(m);
    let pitch = m.pitch();
    let past = m.scroll - row * pitch;
    assert((row + 1) * pitch == row * pitch + pitch) by (nonlinear_arith);
    vstd::arithmetic::div_mod::lemma_fundamental_div_mod_converse(m.scroll, pitch, row, past);
    assert(row >= 0) by (nonlinear_arith)
        requires
            0 <= m.scroll,
            m.scroll < (row + 1) * pitch,
            pitch > 0,
    ;
}

/// In paged mode a page key goes that many rows down, or up, and stops at the ends.
pub proof fn law_page_keys_count_rows_in_paged_mode(m: Model, dir: int)
    requires
        m.wf(),
        m.pages.len() > 0,
        !m.continuous,
    ensures
        ({
            let row = m.nav_page(dir).current_row;
            let last = m.specs().len() - 1;
            &&& 0 <= row <= last
            &&& 0 <= m.current_row + dir <= last ==> row == m.current_row + dir
            &&& m.current_row + dir < 0 ==> row == 0
            &&& m.current_row + dir > last ==> row == last
        }),
{
    lemma_rows(m);
}

/// Scrolled past the top of the last row, the list is on the last row.
pub proof fn law_past_the_last_row_is_the_last_row(m: Model, offset: int)
    requires
        m.wf(),
        m.pages.len() > 0,
        offset >= (m.specs().len() - 1) * m.pitch(),
    ensures
        m.scrolled(offset).current_row == m.specs().len() - 1,
{
    lemma_rows(m);
    let pitch = m.pitch();
    let last = m.specs().len() - 1;
    if offset > 0 {
        lemma_nearest_row(offset, pitch);
        vstd::arithmetic::div_mod::lemma_fundamental_div_mod(offset, pitch);
        let whole = offset / pitch;
        let part = offset % pitch;
        assert(whole >= last) by (nonlinear_arith)
            requires
                offset == pitch * whole + part,
                part < pitch,
                offset >= last * pitch,
                pitch > 0,
        ;
    } else {
        assert(last == 0) by (nonlinear_arith)
            requires
                offset <= 0,
                offset >= last * pitch,
                pitch > 0,
                last >= 0,
        ;
    }
}

/// At the top of the list, or above it, the list is on the first row.
pub proof fn law_at_the_top_is_the_first_row(m: Model, offset: int)
    requires
        m.wf(),
        m.pages.len() > 0,
        offset <= 0,
    ensures
        m.scrolled(offset).current_row == 0,
{
    lemma_rows(m);
}

/// Scrolled exactly halfway from one row to the next, the list is on the next.
pub proof fn law_halfway_the_list_is_on_the_next_row(m: Model, row: int, offset: int)
    requires
        m.wf(),
        0 <= row,
        row + 1 < m.specs().len(),
        2 * offset == (2 * row + 1) * m.pitch(),
    ensures
        m.scrolled(offset).current_row == row + 1,
{
    lemma_rows(m);
    let pitch = m.pitch();
    assert((2 * row + 1) * pitch == 2 * (row * pitch) + pitch) by (nonlinear_arith);
    let part = offset - row * pitch;
    assert(row * pitch >= 0) by (nonlinear_arith)
        requires
            row >= 0,
            pitch > 0,
    ;
    vstd::arithmetic::div_mod::lemma_fundamental_div_mod_converse(offset, pitch, row, part);
    lemma_nearest_row(offset, pitch);
}

}
