//! What is rendered ahead: the rows next to those on screen.

use vstd::prelude::*;

use super::lemma_rows;
use super::requests::{
    is_prefetch, law_requests_go_from_top_to_bottom, law_requests_leave_nothing_out,
    law_visible_rows_are_requested_first, lemma_on_screen_rows, lemma_row_pages,
    page_asked, row_of,
};
use crate::layout::{law_each_page_has_one_place, law_rows_keep_page_order, max, min};
use crate::model::{Command, FitMode, Model};
use crate::render::RenderRequest;

verus! {

/// A page is asked for at low priority, in the newest view and at its scale, among the
/// commands that came in since `m`.
pub open spec fn asked_ahead(m: Model, after: Model, page: int) -> bool {
    after.commands.skip(m.commands.len() as int).contains(
        Command::Render(
            RenderRequest {
                page: page as i32,
                scale: after.scale() as u64,
                generation: after.generation as u64,
                prefetch: true,
            },
        ),
    )
}

/// Some page of a row has no image.
pub open spec fn row_lacks_a_page(m: Model, row: int) -> bool {
    exists|page: int|
        0 <= page < m.pages.len() && #[trigger] row_of(m, page) == row && !m.retained.contains(
            page as usize,
        )
}

/// A row needs rendering exactly if one of its pages, left or right, has no image.
pub proof fn law_a_row_needs_what_it_lacks(m: Model, row: int)
    requires
        m.pages.len() <= i32::MAX,
        0 <= row < m.specs().len(),
    ensures
        m.needs(row) <==> row_lacks_a_page(m, row),
{
    let count = m.pages.len() as int;
    let spec = m.specs()[row];
    law_rows_keep_page_order(count, m.spread);
    law_each_page_has_one_place(count, m.spread, spec.left as int);
    if let Some(right) = spec.right {
        law_each_page_has_one_place(count, m.spread, right as int);
    }
    if m.needs(row) {
        if !m.retained.contains(spec.left) {
            assert(row_of(m, spec.left as int) == row);
        } else {
            let right = spec.right.unwrap();
            assert(row_of(m, right as int) == row);
        }
    }
    if row_lacks_a_page(m, row) {
        let page = choose|page: int|
            0 <= page < m.pages.len() && #[trigger] row_of(m, page) == row && !m.retained.contains(
                page as usize,
            );
        law_each_page_has_one_place(count, m.spread, page);
    }
}

/// While the list is on screen, the four rows below and the four rows above are asked
/// for ahead of time: a page there that has no image, or any, where the view is
/// rendered anew.
#[verifier::spinoff_prover]
pub proof fn law_rows_around_the_view_are_asked_for_ahead(m: Model, force: bool, page: int)
    requires
        m.pages.len() <= i32::MAX,
        m.scroll >= 0,
        m.zoom >= 0,
        m.continuous,
        0 <= page < m.pages.len(),
        force || !m.retained.contains(page as usize),
        m.bottom_row() < row_of(m, page) <= m.bottom_row() + 4 || m.top_row() - 4 <= row_of(m, page)
            < m.top_row(),
    ensures
        asked_ahead(m, m.request_visible(force), page),
{
    lemma_on_screen_rows(m);
    law_each_page_has_one_place(m.pages.len() as int, m.spread, page);
    let next = m.advance_epoch();
    let after = m.request_visible(force);
    let top = m.top_row();
    let bottom = m.bottom_row();
    let row = row_of(m, page);
    if !force {
        assert(row_of(next, page) == row);
        law_a_row_needs_what_it_lacks(next, row);
    }
    let asked = next.request(page as usize, true);
    let visible = next.requests(top, bottom + 1, force, false);
    let below = next.requests(bottom + 1, min(bottom + 4, m.last_row()) + 1, force, true);
    let above = next.requests(max(top - 4, 0), top, force, true);
    let new = after.commands.skip(m.commands.len() as int);
    assert(new =~= seq![Command::Advance((m.generation + 1) as u64)] + visible + below + above);
    if row > bottom {
        law_requests_leave_nothing_out(
            next,
            bottom + 1,
            min(bottom + 4, m.last_row()) + 1,
            force,
            true,
            page,
        );
        let i = choose|i: int| 0 <= i < below.len() && below[i] == asked;
        assert(new[1 + visible.len() + i] == asked);
    } else {
        law_requests_leave_nothing_out(next, max(top - 4, 0), top, force, true, page);
        let i = choose|i: int| 0 <= i < above.len() && above[i] == asked;
        assert(new[1 + visible.len() + below.len() + i] == asked);
    }
}

/// What is asked for ahead comes from the four rows below and the four rows above, the
/// rows below first, and on either side from top to bottom. On screen nothing is asked
/// for at low priority, and elsewhere nothing at high priority.
#[verifier::spinoff_prover]
pub proof fn law_rows_below_the_view_come_first(m: Model, force: bool)
    requires
        m.wf(),
        m.generation < u64::MAX,
        m.continuous,
        m.pages.len() > 0,
    ensures
        ({
            let new = m.request_visible(force).commands.skip(m.commands.len() as int);
            let top = m.top_row();
            let bottom = m.bottom_row();
            &&& forall|i: int|
                1 <= i < new.len() ==> {
                    let row = row_of(m, page_asked(#[trigger] new[i]));
                    &&& top - 4 <= row <= bottom + 4
                    &&& is_prefetch(new[i]) <==> row < top || row > bottom
                    &&& force || row_lacks_a_page(m, row)
                }
            &&& forall|i: int, j: int|
                1 <= i < j < new.len() && is_prefetch(#[trigger] new[i]) ==> {
                    let earlier = row_of(m, page_asked(new[i]));
                    let later = row_of(m, page_asked(#[trigger] new[j]));
                    &&& earlier < top ==> later < top
                    &&& earlier < top || later > bottom ==> page_asked(new[i]) < page_asked(new[j])
                }
        }),
{
    lemma_rows(m);
    lemma_on_screen_rows(m);
    let next = m.advance_epoch();
    let after = m.request_visible(force);
    let new = after.commands.skip(m.commands.len() as int);
    let top = m.top_row();
    let bottom = m.bottom_row();
    let end = min(bottom + 4, m.last_row()) + 1;
    let start = max(top - 4, 0);
    let visible = next.requests(top, bottom + 1, force, false);
    let below = next.requests(bottom + 1, end, force, true);
    let above = next.requests(start, top, force, true);
    law_requests_go_from_top_to_bottom(next, top, bottom + 1, force, false);
    law_requests_go_from_top_to_bottom(next, bottom + 1, end, force, true);
    law_requests_go_from_top_to_bottom(next, start, top, force, true);
    law_visible_rows_are_requested_first(m, force);
    assert(new =~= seq![Command::Advance((m.generation + 1) as u64)] + visible + below + above);
    let v = 1 + visible.len() as int;
    let b = v + below.len() as int;
    assert forall|i: int| 1 <= i < new.len() implies ({
        let row = row_of(m, page_asked(#[trigger] new[i]));
        &&& i < v ==> top <= row <= bottom && !is_prefetch(new[i])
        &&& v <= i < b ==> bottom < row <= bottom + 4 && is_prefetch(new[i])
        &&& b <= i ==> top - 4 <= row < top && is_prefetch(new[i])
        &&& force || row_lacks_a_page(m, row)
    }) by {
        let row = row_of(m, page_asked(new[i]));
        if i < v {
            assert(new[i] == visible[i - 1]);
        } else if i < b {
            assert(new[i] == below[i - v]);
        } else {
            assert(new[i] == above[i - b]);
        }
        law_each_page_has_one_place(m.pages.len() as int, m.spread, page_asked(new[i]));
        law_a_row_needs_what_it_lacks(m, row);
    }
    assert forall|i: int, j: int|
        1 <= i < j < new.len() && is_prefetch(#[trigger] new[i]) implies ({
        let earlier = row_of(m, page_asked(new[i]));
        let later = row_of(m, page_asked(#[trigger] new[j]));
        &&& earlier < top ==> later < top
        &&& earlier < top || later > bottom ==> page_asked(new[i]) < page_asked(new[j])
    }) by {
        if b <= i {
            assert(new[i] == above[i - b] && new[j] == above[j - b]);
        } else if j < b {
            assert(new[i] == below[i - v] && new[j] == below[j - v]);
        }
    }
}

/// After a jump the four rows above and the four rows below are asked for ahead of
/// time: every page there that has no image.
pub proof fn law_rows_around_a_jump_are_asked_for_ahead(m: Model, page: int)
    requires
        m.pages.len() <= i32::MAX,
        0 <= m.current_row < m.specs().len(),
        0 <= page < m.pages.len(),
        !m.retained.contains(page as usize),
        row_of(m, page) != m.current_row,
        m.current_row - 4 <= row_of(m, page) <= m.current_row + 4,
    ensures
        asked_ahead(m, m.request_current_row(), page),
{
    law_each_page_has_one_place(m.pages.len() as int, m.spread, page);
    let next = m.advance_epoch();
    let after = m.request_current_row();
    let row = row_of(m, page);
    assert(row_of(next, page) == row);
    law_a_row_needs_what_it_lacks(next, row);
    let start = max(m.current_row - 4, 0);
    let end = min(m.current_row + 4, m.last_row()) + 1;
    let asked = next.request(page as usize, true);
    let first = next.row_requests(m.current_row, false);
    let above = next.requests(start, m.current_row, false, true);
    let below = next.requests(m.current_row + 1, end, false, true);
    let new = after.commands.skip(m.commands.len() as int);
    assert(new =~= seq![Command::Advance((m.generation + 1) as u64)] + first + above + below);
    if row < m.current_row {
        law_requests_leave_nothing_out(next, start, m.current_row, false, true, page);
        let i = choose|i: int| 0 <= i < above.len() && above[i] == asked;
        assert(new[1 + first.len() + i] == asked);
    } else {
        law_requests_leave_nothing_out(next, m.current_row + 1, end, false, true, page);
        let i = choose|i: int| 0 <= i < below.len() && below[i] == asked;
        assert(new[1 + first.len() + above.len() + i] == asked);
    }
}

/// A jump asks for nothing but the pages of the current row, at high priority and from
/// left to right, and then, at low priority and in the order of the pages, for those of
/// the four rows above and the four below that lack a page.
#[verifier::spinoff_prover]
pub proof fn law_a_jump_asks_from_top_to_bottom(m: Model)
    requires
        m.wf(),
        m.generation < u64::MAX,
        m.pages.len() > 0,
    ensures
        ({
            let new = m.request_current_row().commands.skip(m.commands.len() as int);
            &&& forall|i: int|
                1 <= i < new.len() ==> {
                    let row = row_of(m, page_asked(#[trigger] new[i]));
                    &&& m.current_row - 4 <= row <= m.current_row + 4
                    &&& is_prefetch(new[i]) <==> row != m.current_row
                    &&& row == m.current_row || row_lacks_a_page(m, row)
                }
            &&& forall|i: int, j: int|
                1 <= i < j < new.len() && (is_prefetch(#[trigger] new[i]) <==> is_prefetch(
                    #[trigger] new[j],
                )) ==> page_asked(new[i]) < page_asked(new[j])
            &&& forall|i: int, j: int|
                1 <= i < j < new.len() && is_prefetch(#[trigger] new[i]) ==> is_prefetch(
                    #[trigger] new[j],
                )
        }),
{
    lemma_rows(m);
    let next = m.advance_epoch();
    let after = m.request_current_row();
    let new = after.commands.skip(m.commands.len() as int);
    let start = max(m.current_row - 4, 0);
    let end = min(m.current_row + 4, m.last_row()) + 1;
    let first = next.row_requests(m.current_row, false);
    let above = next.requests(start, m.current_row, false, true);
    let below = next.requests(m.current_row + 1, end, false, true);
    law_requests_go_from_top_to_bottom(next, start, m.current_row, false, true);
    law_requests_go_from_top_to_bottom(next, m.current_row + 1, end, false, true);
    let spec = m.specs()[m.current_row];
    assert(row_of(m, spec.left as int) == m.current_row && (spec.right matches Some(right) ==> right
        == spec.left + 1 && row_of(m, right as int) == m.current_row)) by {
        lemma_row_pages(m, m.current_row);
    }
    assert(new =~= seq![Command::Advance((m.generation + 1) as u64)] + first + above + below);
    let a = 1 + first.len() as int;
    let b = a + above.len() as int;
    assert forall|i: int| 1 <= i < new.len() implies ({
        let row = row_of(m, page_asked(#[trigger] new[i]));
        &&& i < a ==> row == m.current_row && !is_prefetch(new[i])
        &&& a <= i < b ==> m.current_row - 4 <= row < m.current_row && is_prefetch(new[i])
        &&& b <= i ==> m.current_row < row <= m.current_row + 4 && is_prefetch(new[i])
        &&& row == m.current_row || row_lacks_a_page(m, row)
    }) by {
        let row = row_of(m, page_asked(new[i]));
        if i < a {
            assert(new[i] == first[i - 1]);
        } else {
            if i < b {
                assert(new[i] == above[i - a]);
            } else {
                assert(new[i] == below[i - b]);
            }
            law_each_page_has_one_place(m.pages.len() as int, m.spread, page_asked(new[i]));
            law_a_row_needs_what_it_lacks(m, row);
        }
    }
    assert forall|i: int, j: int|
        1 <= i < j < new.len() && (is_prefetch(#[trigger] new[i]) <==> is_prefetch(
            #[trigger] new[j],
        )) implies page_asked(new[i]) < page_asked(new[j]) by {
        if j < a {
            assert(new[i] == first[i - 1] && new[j] == first[j - 1]);
        } else if j < b {
            assert(new[i] == above[i - a] && new[j] == above[j - a]);
        } else if i >= b {
            assert(new[i] == below[i - b] && new[j] == below[j - b]);
        } else {
            lemma_lower_rows_hold_later_pages(m, page_asked(new[i]), page_asked(new[j]));
        }
    }
}

/// Pages of a lower row come later in the document.
proof fn lemma_lower_rows_hold_later_pages(m: Model, page: int, other: int)
    requires
        0 <= page,
        0 <= other,
        row_of(m, page) < row_of(m, other),
    ensures
        page < other,
{
}

/// What was asked for since a later state was asked for since an earlier one.
proof fn lemma_asked_since(before: Model, m: Model, asked: Model, after: Model, page: int)
    requires
        before.commands.len() <= m.commands.len() <= asked.commands.len(),
        asked_ahead(m, asked, page),
        after.commands.len() >= asked.commands.len(),
        forall|i: int|
            0 <= i < asked.commands.len() ==> #[trigger] after.commands[i] == asked.commands[i],
        after.scale() == asked.scale(),
        after.generation == asked.generation,
    ensures
        asked_ahead(before, after, page),
{
    let command = Command::Render(
        RenderRequest {
            page: page as i32,
            scale: after.scale() as u64,
            generation: after.generation as u64,
            prefetch: true,
        },
    );
    let new = asked.commands.skip(m.commands.len() as int);
    let i = choose|i: int| 0 <= i < new.len() && new[i] == command;
    assert(asked.commands[m.commands.len() + i] == command);
    let skipped = after.commands.skip(before.commands.len() as int);
    assert(skipped[m.commands.len() + i - before.commands.len()] == command);
}

/// The pages that a jump prepares: those without an image in the four rows above and
/// the four below the row it led to.
pub open spec fn prepared_around(m: Model, after: Model) -> bool {
    forall|page: int|
        0 <= page < m.pages.len() && !after.retained.contains(page as usize) && #[trigger] row_of(
            after,
            page,
        ) != after.current_row && after.current_row - 4 <= row_of(after, page)
            <= after.current_row + 4 ==> asked_ahead(m, after, page)
}

/// Around the current row, once it was asked for.
proof fn lemma_prepared(before: Model, m: Model, after: Model)
    requires
        m.pages.len() <= i32::MAX,
        0 <= m.current_row < m.specs().len(),
        before.pages == m.pages,
        before.commands.len() <= m.commands.len(),
        after.spread == m.spread,
        after.pages == m.pages,
        after.retained == m.retained,
        after.current_row == m.current_row,
        after.commands == m.request_current_row().commands,
        after.scale() == m.scale(),
        after.generation == m.generation + 1,
    ensures
        prepared_around(before, after),
{
    let asked = m.request_current_row();
    assert forall|page: int|
        0 <= page < before.pages.len() && !after.retained.contains(page as usize)
            && #[trigger] row_of(after, page) != after.current_row && after.current_row - 4
            <= row_of(after, page) <= after.current_row + 4 implies asked_ahead(
        before,
        after,
        page,
    ) by {
        assert(row_of(m, page) == row_of(after, page));
        law_rows_around_a_jump_are_asked_for_ahead(m, page);
        lemma_asked_since(before, m, asked, after, page);
    }
}

/// A jump to a row, in either mode, prepares the rows around it.
pub proof fn law_a_jump_prepares_the_rows_around(m: Model, row: int)
    requires
        m.wf(),
        m.generation < u64::MAX,
        0 <= row < m.specs().len(),
    ensures
        prepared_around(m, m.scroll_to_row(row)),
{
    lemma_rows(m);
    let offset = row * m.pitch();
    let after = m.scroll_to_row(row);
    let moved = Model { current_row: row, scroll: offset, ..m };
    if m.continuous {
        lemma_prepared(m, moved.scroll_list(-offset), after);
    } else {
        lemma_prepared(
            m,
            Model { paged_x: 0, paged_y: 0, ..moved }.refresh_current_row(),
            after,
        );
    }
}

/// End prepares the rows above the last one.
pub proof fn law_end_prepares_the_rows_above(m: Model)
    requires
        m.wf(),
        m.generation < u64::MAX,
        m.pages.len() > 0,
    ensures
        prepared_around(m, m.nav_end()),
{
    lemma_rows(m);
    let after = m.nav_end();
    let moved = Model { current_row: m.last_row(), scroll: after.scroll, ..m };
    if m.continuous {
        lemma_prepared(m, moved.scroll_list(-m.scroll_limit()), after);
    } else {
        lemma_prepared(
            m,
            Model { paged_x: 0, paged_y: 0, ..moved }.refresh_current_row(),
            after,
        );
    }
}

/// A page that is turned by the wheel prepares the rows around.
pub proof fn law_a_turned_page_prepares_the_rows_around(m: Model, delta_x: int, delta_y: int)
    requires
        m.wf(),
        m.generation < u64::MAX,
        m.paged_scroll(delta_x, delta_y, false).current_row != m.current_row,
    ensures
        prepared_around(m, m.paged_scroll(delta_x, delta_y, false)),
{
    lemma_rows(m);
    let after = m.paged_scroll(delta_x, delta_y, false);
    let moved = Model { current_row: after.current_row, paged_x: 0, ..m };
    let landed = Model {
        paged_y: if delta_y > 0 {
            moved.paged_limit().1
        } else {
            0
        },
        ..moved
    };
    lemma_prepared(m, landed.refresh_current_row(), after);
}

/// As the reader scrolls, the four rows below and above what is on screen are prepared:
/// their pages without an image are asked for.
pub proof fn law_scrolling_prepares_the_rows_around(m: Model, offset: int, page: int)
    requires
        m.wf(),
        m.generation < u64::MAX,
        offset <= i128::MAX,
        m.continuous,
        0 <= page < m.pages.len(),
        !m.retained.contains(page as usize),
        ({
            let after = m.scrolled(offset);
            after.bottom_row() < row_of(m, page) <= after.bottom_row() + 4 || after.top_row() - 4
                <= row_of(m, page) < after.top_row()
        }),
    ensures
        asked_ahead(m, m.scrolled(offset), page),
{
    lemma_rows(m);
    let after = m.scrolled(offset);
    let moved = Model {
        scroll: after.scroll,
        current_row: after.current_row,
        window: after.window,
        ..m
    };
    assert(moved.top_row() == after.top_row() && moved.bottom_row() == after.bottom_row());
    if offset > 0 {
        crate::geometry::lemma_nearest_row(offset, m.pitch());
    }
    law_rows_around_the_view_are_asked_for_ahead(moved, false, page);
    assert(after == moved.request_visible(false));
}

/// A new zoom has the four rows below and above what is on screen rendered anew too, at
/// the new scale, whether they have images or not.
pub proof fn law_zooming_prepares_the_rows_around(m: Model, zoom: int, page: int)
    requires
        m.wf(),
        m.generation < u64::MAX,
        m.continuous,
        0 <= page < m.pages.len(),
        ({
            let after = m.set_zoom(zoom);
            after.bottom_row() < row_of(m, page) <= after.bottom_row() + 4 || after.top_row() - 4
                <= row_of(m, page) < after.top_row()
        }),
    ensures
        asked_ahead(m, m.set_zoom(zoom), page),
{
    let after = m.set_zoom(zoom);
    let zoomed = Model { fit: FitMode::Free, zoom: after.zoom, ..m }.apply_density();
    assert(zoomed.top_row() == after.top_row() && zoomed.bottom_row() == after.bottom_row());
    law_rows_around_the_view_are_asked_for_ahead(zoomed, true, page);
    let asked = zoomed.request_visible(true);
    assert(after.commands == asked.commands.push(Command::ShowStatus));
    lemma_asked_since(m, zoomed, asked, after, page);
}

}
