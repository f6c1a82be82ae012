//! What is asked of the render worker, and in which order.

use vstd::prelude::*;

use super::{lemma_rows, lemma_tallest};
use crate::geometry::{clamp, nearest_row, rows_spanned, MAX_ZOOM, MIN_ZOOM};
use crate::layout::{
    law_each_page_has_one_place, law_rows_keep_page_order, lemma_specs_within, max, min, page_slot,
};
use crate::model::{Command, FitMode, Model, PREFETCH_ROWS};

verus! {

/// The row that holds a page.
pub open spec fn row_of(m: Model, page: int) -> int {
    page_slot(m.spread, page).0
}

/// The command asks for a page of the document in one of the rows from `from` up
/// to but not including `to`, in the current view and at its scale.
pub open spec fn asks_within(
    m: Model,
    command: Command,
    from: int,
    to: int,
    prefetch: bool,
) -> bool {
    &&& command matches Command::Render(request)
    &&& 0 <= request.page < m.pages.len()
    &&& from <= row_of(m, request.page as int) < to
    &&& request.generation == m.generation as u64
    &&& request.scale == m.scale() as u64
    &&& request.prefetch == prefetch
}

/// The page that a command asks for, -1 if it asks for none.
pub open spec fn page_asked(command: Command) -> int {
    match command {
        Command::Render(request) => request.page as int,
        _ => -1,
    }
}

/// The rows of a viewer hold pages of the document, each in its own row.
pub proof fn lemma_row_pages(m: Model, row: int)
    requires
        m.pages.len() <= i32::MAX,
        0 <= row < m.specs().len(),
    ensures
        ({
            let spec = m.specs()[row];
            &&& 0 <= spec.left < m.pages.len()
            &&& row_of(m, spec.left as int) == row
            &&& spec.right matches Some(right) ==> right == spec.left + 1 && right < m.pages.len()
                && row_of(m, right as int) == row
            &&& forall|later: int|
                row < later < m.specs().len() ==> spec.left < (#[trigger] m.specs()[later]).left && (
                spec.right matches Some(right) ==> right < m.specs()[later].left)
        }),
{
    lemma_specs_within(m.pages.len() as int, m.spread);
}

/// Requests for a range of rows ask for pages of these rows, from top to bottom,
/// and only for rows that have a page which is not rendered, unless they are
/// forced.
pub proof fn law_requests_go_from_top_to_bottom(
    m: Model,
    from: int,
    to: int,
    force: bool,
    prefetch: bool,
)
    requires
        m.pages.len() <= i32::MAX,
        0 <= from,
    ensures
        ({
            let requests = m.requests(from, to, force, prefetch);
            &&& forall|i: int|
                0 <= i < requests.len() ==> asks_within(
                    m,
                    #[trigger] requests[i],
                    from,
                    to,
                    prefetch,
                )
            &&& forall|i: int|
                0 <= i < requests.len() ==> force || m.needs(
                    row_of(m, page_asked(#[trigger] requests[i])),
                )
            &&& forall|i: int, j: int|
                0 <= i < j < requests.len() ==> page_asked(#[trigger] requests[i]) < page_asked(
                    #[trigger] requests[j],
                )
        }),
    decreases to - from,
{
    if from < to {
        law_requests_go_from_top_to_bottom(m, from, to - 1, force, prefetch);
        let above = m.requests(from, to - 1, force, prefetch);
        let requests = m.requests(from, to, force, prefetch);
        let row = to - 1;
        if row < m.specs().len() {
            lemma_row_pages(m, row);
            assert forall|i: int| 0 <= i < above.len() implies page_asked(#[trigger] above[i])
                < m.specs()[row].left by {
                let page = page_asked(above[i]);
                assert(asks_within(m, above[i], from, to - 1, prefetch));
                law_each_page_has_one_place(m.pages.len() as int, m.spread, page);
                lemma_row_pages(m, row_of(m, page));
            }
        }
        assert forall|i: int| 0 <= i < requests.len() implies asks_within(
            m,
            #[trigger] requests[i],
            from,
            to,
            prefetch,
        ) && (force || m.needs(row_of(m, page_asked(requests[i])))) by {
            if i < above.len() {
                assert(requests[i] == above[i]);
                assert(asks_within(m, above[i], from, to - 1, prefetch));
            }
        }
        assert forall|i: int, j: int| 0 <= i < j < requests.len() implies page_asked(
            #[trigger] requests[i],
        ) < page_asked(#[trigger] requests[j]) by {
            if i < above.len() {
                assert(requests[i] == above[i]);
                if j < above.len() {
                    assert(requests[j] == above[j]);
                }
            }
        }
    }
}

/// Requests for a range of rows leave out no page of a row that needs rendering.
pub proof fn law_requests_leave_nothing_out(
    m: Model,
    from: int,
    to: int,
    force: bool,
    prefetch: bool,
    page: int,
)
    requires
        m.pages.len() <= i32::MAX,
        0 <= page < m.pages.len(),
        from <= row_of(m, page) < to,
        force || m.needs(row_of(m, page)),
    ensures
        m.requests(from, to, force, prefetch).contains(m.request(page as usize, prefetch)),
    decreases to - from,
{
    let asked = m.request(page as usize, prefetch);
    let requests = m.requests(from, to, force, prefetch);
    let above = m.requests(from, to - 1, force, prefetch);
    law_each_page_has_one_place(m.pages.len() as int, m.spread, page);
    if row_of(m, page) < to - 1 {
        law_requests_leave_nothing_out(m, from, to - 1, force, prefetch, page);
        let i = choose|i: int| 0 <= i < above.len() && above[i] == asked;
        assert(requests[i] == asked);
    } else {
        let row = m.row_requests(to - 1, prefetch);
        assert(requests == above + row);
        if page_slot(m.spread, page).1 {
            assert(requests[above.len() as int + 1] == asked);
        } else {
            assert(requests[above.len() as int] == asked);
        }
    }
}

/// Asking for the rows in view starts a new view, and all that is asked for belongs to
/// it. First come the visible rows, from top to bottom; then, at low priority, at most
/// a few rows below and above them. No page is asked for twice. Unless everything is
/// to be rendered anew, rows whose pages are all rendered are not asked for.
pub proof fn law_visible_rows_are_requested_first(m: Model, force: bool)
    requires
        m.pages.len() <= i32::MAX,
        m.generation < u64::MAX,
        m.scroll >= 0,
        m.zoom >= 0,
        m.continuous,
        m.pages.len() > 0,
    ensures
        ({
            let after = m.request_visible(force);
            let new = after.commands.skip(m.commands.len() as int);
            let top = m.top_row();
            let bottom = m.bottom_row();
            &&& after.generation == m.generation + 1
            &&& after.commands.take(m.commands.len() as int) == m.commands
            &&& new.len() > 0
            &&& new[0] == Command::Advance((m.generation + 1) as u64)
            &&& forall|i: int|
                1 <= i < new.len() ==> asks_within(
                    after,
                    #[trigger] new[i],
                    top,
                    bottom + 1,
                    false,
                ) || asks_within(
                    after,
                    new[i],
                    max(top - PREFETCH_ROWS, 0),
                    bottom + PREFETCH_ROWS + 1,
                    true,
                )
            &&& forall|i: int|
                1 <= i < new.len() ==> force || m.needs(row_of(m, page_asked(#[trigger] new[i])))
            &&& forall|i: int, j: int|
                1 <= i < j < new.len() && !is_prefetch(#[trigger] new[j]) ==> !is_prefetch(
                    #[trigger] new[i],
                ) && page_asked(new[i]) < page_asked(new[j])
            &&& forall|i: int, j: int|
                1 <= i < j < new.len() ==> page_asked(#[trigger] new[i]) != page_asked(
                    #[trigger] new[j],
                )
        }),
{
    let (visible, below, above) = lemma_visible_parts(m, force);
    let after = m.request_visible(force);
    let new = after.commands.skip(m.commands.len() as int);
    let top = m.top_row();
    let bottom = m.bottom_row();
    assert(after.commands.take(m.commands.len() as int) =~= m.commands);
    assert(new =~= seq![Command::Advance((m.generation + 1) as u64)] + visible + below + above);
    let v = 1 + visible.len() as int;
    let b = v + below.len() as int;
    assert forall|i: int| 1 <= i < new.len() implies (asks_within(
        after,
        #[trigger] new[i],
        top,
        bottom + 1,
        false,
    ) || asks_within(
        after,
        new[i],
        max(top - PREFETCH_ROWS, 0),
        bottom + PREFETCH_ROWS + 1,
        true,
    )) && (force || m.needs(row_of(m, page_asked(new[i])))) && (is_prefetch(new[i]) <==> i >= v) by {
        if i < v {
            assert(new[i] == visible[i - 1]);
        } else if i < b {
            assert(new[i] == below[i - v]);
        } else {
            assert(new[i] == above[i - b]);
        }
    }
    assert forall|i: int, j: int| 1 <= i < j < v implies page_asked(#[trigger] new[i]) < page_asked(
        #[trigger] new[j],
    ) by {
        assert(new[i] == visible[i - 1] && new[j] == visible[j - 1]);
    }
    assert forall|i: int, j: int| 1 <= i < j < new.len() implies page_asked(#[trigger] new[i])
        != page_asked(#[trigger] new[j]) by {
        if j < v {
        } else if j < b {
            assert(new[j] == below[j - v]);
            if i < v {
                assert(new[i] == visible[i - 1]);
            } else {
                assert(new[i] == below[i - v]);
            }
        } else {
            assert(new[j] == above[j - b]);
            if i < v {
                assert(new[i] == visible[i - 1]);
            } else if i < b {
                assert(new[i] == below[i - v]);
            } else {
                assert(new[i] == above[i - b]);
            }
        }
    }
}

/// The command asks for a page at low priority.
pub open spec fn is_prefetch(command: Command) -> bool {
    command matches Command::Render(request) && request.prefetch
}

/// A view shows at least parts of one row.
proof fn lemma_spanned(height: int, pitch: int)
    requires
        pitch > 0,
    ensures
        rows_spanned(height, pitch) >= 1,
{
    if height > 0 {
        vstd::arithmetic::div_mod::lemma_div_pos_is_pos(height + pitch - 1, pitch);
    }
}

/// Pages are asked for from top to bottom, within a range of rows, and only where a
/// row needs it or all are to be rendered anew.
spec fn in_turn(
    m: Model,
    after: Model,
    requests: Seq<Command>,
    from: int,
    to: int,
    force: bool,
    prefetch: bool,
) -> bool {
    &&& forall|i: int|
        0 <= i < requests.len() ==> asks_within(after, #[trigger] requests[i], from, to, prefetch)
            && (force || m.needs(row_of(m, page_asked(requests[i]))))
    &&& forall|i: int, j: int|
        0 <= i < j < requests.len() ==> page_asked(#[trigger] requests[i]) < page_asked(
            #[trigger] requests[j],
        )
}

/// Requests of a view that differs from another one by its epoch and commands only.
proof fn lemma_in_turn(
    m: Model,
    next: Model,
    after: Model,
    from: int,
    to: int,
    force: bool,
    prefetch: bool,
)
    requires
        m.pages.len() <= i32::MAX,
        0 <= from,
        next == (Model { generation: next.generation, commands: next.commands, ..m }),
        after == (Model { commands: after.commands, ..next }),
    ensures
        in_turn(
            m,
            after,
            next.requests(from, to, force, prefetch),
            from,
            to,
            force,
            prefetch,
        ),
{
    law_requests_go_from_top_to_bottom(next, from, to, force, prefetch);
    let requests = next.requests(from, to, force, prefetch);
    assert forall|i: int| 0 <= i < requests.len() implies asks_within(
        after,
        #[trigger] requests[i],
        from,
        to,
        prefetch,
    ) && (force || m.needs(row_of(m, page_asked(requests[i])))) by {
        assert(asks_within(next, requests[i], from, to, prefetch));
        assert(force || next.needs(row_of(next, page_asked(requests[i]))));
    }
}

/// The three parts of what is asked for: the visible rows, and those below and above
/// them.
proof fn lemma_visible_parts(m: Model, force: bool) -> (parts: (
    Seq<Command>,
    Seq<Command>,
    Seq<Command>,
))
    requires
        m.pages.len() <= i32::MAX,
        m.scroll >= 0,
        m.zoom >= 0,
        m.continuous,
        m.pages.len() > 0,
    ensures
        ({
            let after = m.request_visible(force);
            let top = m.top_row();
            let bottom = m.bottom_row();
            let (visible, below, above) = parts;
            &&& after.generation == m.generation + 1
            &&& after.commands == m.commands.push(Command::Advance((m.generation + 1) as u64))
                + visible + below + above
            &&& in_turn(m, after, visible, top, bottom + 1, force, false)
            &&& in_turn(m, after, below, bottom + 1, bottom + PREFETCH_ROWS + 1, force, true)
            &&& in_turn(m, after, above, max(top - PREFETCH_ROWS, 0), top, force, true)
            &&& below.len() > 0 ==> top <= bottom + 1
        }),
{
    let next = m.advance_epoch();
    let after = m.request_visible(force);
    let top = m.top_row();
    let bottom = m.bottom_row();
    law_rows_keep_page_order(m.pages.len() as int, m.spread);
    lemma_on_screen_rows(m);
    let end = min(bottom + PREFETCH_ROWS, m.last_row()) + 1;
    let visible = next.requests(top, bottom + 1, force, false);
    let below = next.requests(bottom + 1, end, force, true);
    let above = next.requests(max(top - PREFETCH_ROWS, 0), top, force, true);
    lemma_in_turn(m, next, after, top, bottom + 1, force, false);
    lemma_in_turn(m, next, after, bottom + 1, end, force, true);
    lemma_in_turn(m, next, after, max(top - PREFETCH_ROWS, 0), top, force, true);
    assert(in_turn(m, after, below, bottom + 1, bottom + PREFETCH_ROWS + 1, force, true)) by {
        assert forall|i: int| 0 <= i < below.len() implies asks_within(
            after,
            #[trigger] below[i],
            bottom + 1,
            bottom + PREFETCH_ROWS + 1,
            true,
        ) by {
            assert(asks_within(after, below[i], bottom + 1, end, true));
        }
    }
    (visible, below, above)
}

/// The rows on screen are counted from the top, and a view shows at least one.
pub proof fn lemma_on_screen_rows(m: Model)
    requires
        m.scroll >= 0,
        m.zoom >= 0,
    ensures
        m.pitch() > 0,
        0 <= m.top_row(),
        0 <= m.bottom_row() <= m.last_row(),
        m.bottom_row() == m.last_row() || m.top_row() < m.bottom_row(),
{
    lemma_tallest(m.specs(), m.pages);
    assert(m.ref_h() * m.zoom >= 0) by (nonlinear_arith)
        requires
            m.ref_h() >= 0,
            m.zoom >= 0,
    ;
    vstd::arithmetic::div_mod::lemma_div_pos_is_pos(m.scroll, m.pitch());
    lemma_spanned(m.view_size().1, m.pitch());
}

/// Every row that a part of the view shows is among those asked for first: it lies
/// between the topmost row and the last one that may be on screen.
pub proof fn law_rows_in_view_count_as_visible(m: Model, row: int)
    requires
        m.scroll >= 0,
        m.zoom >= 0,
        0 <= row < m.specs().len(),
        row * m.pitch() < m.scroll + m.view_size().1,
        m.scroll < (row + 1) * m.pitch(),
        m.view_size().1 > 0,
    ensures
        m.top_row() <= row <= m.bottom_row(),
{
    lemma_on_screen_rows(m);
    let pitch = m.pitch();
    let top = m.top_row();
    let height = m.view_size().1;
    let span = (height + pitch - 1) / pitch;
    vstd::arithmetic::div_mod::lemma_fundamental_div_mod(m.scroll, pitch);
    vstd::arithmetic::div_mod::lemma_mod_bound(m.scroll, pitch);
    vstd::arithmetic::div_mod::lemma_fundamental_div_mod(height + pitch - 1, pitch);
    vstd::arithmetic::div_mod::lemma_mod_bound(height + pitch - 1, pitch);
    assert(top <= row) by (nonlinear_arith)
        requires
            pitch > 0,
            pitch * top <= m.scroll,
            m.scroll < (row + 1) * pitch,
    ;
    assert(row <= top + span) by (nonlinear_arith)
        requires
            pitch > 0,
            m.scroll < pitch * top + pitch,
            height <= pitch * span,
            row * pitch < m.scroll + height,
    ;
}

/// In paged mode nothing is asked for, and neither is it of an empty document.
pub proof fn law_paged_mode_requests_no_visible_rows(m: Model, force: bool)
    requires
        !m.continuous || m.pages.len() == 0,
        m.pages.len() <= i32::MAX,
    ensures
        m.request_visible(force).commands == m.commands.push(
            Command::Advance((m.generation + 1) as u64),
        ),
{
    law_rows_keep_page_order(m.pages.len() as int, m.spread);
}

/// Asking for the rows in view leaves out no page of a visible row that needs
/// rendering, and no page of a visible row at all where everything is rendered anew.
pub proof fn law_no_visible_row_is_left_out(m: Model, force: bool, page: int)
    requires
        m.pages.len() <= i32::MAX,
        m.continuous,
        0 <= page < m.pages.len(),
        m.top_row() <= row_of(m, page) <= m.bottom_row(),
        force || m.needs(row_of(m, page)),
    ensures
        m.request_visible(force).commands.skip(m.commands.len() as int).contains(
            m.request_visible(force).request(page as usize, false),
        ),
{
    law_rows_keep_page_order(m.pages.len() as int, m.spread);
    let next = m.advance_epoch();
    let after = m.request_visible(force);
    let new = after.commands.skip(m.commands.len() as int);
    let visible = next.requests(m.top_row(), m.bottom_row() + 1, force, false);
    law_requests_leave_nothing_out(
        next,
        m.top_row(),
        m.bottom_row() + 1,
        force,
        false,
        page,
    );
    let asked = next.request(page as usize, false);
    let i = choose|i: int| 0 <= i < visible.len() && visible[i] == asked;
    assert(new[1 + i] == asked);
    assert(after.request(page as usize, false) == asked);
}

/// Following the list as it is scrolled starts a new view, and all that is asked
/// for belongs to it. First come the visible rows, from top to bottom; then, at low
/// priority, at most a few rows below and above them. Rows whose pages are all
/// rendered are not asked for again, and no page is asked for twice.
pub proof fn law_scrolling_requests_visible_rows_first(m: Model, offset: int)
    requires
        m.wf(),
        m.generation < u64::MAX,
        m.continuous,
        m.pages.len() > 0,
    ensures
        ({
            let after = m.scrolled(offset);
            let new = after.commands.skip(m.commands.len() as int);
            let top = after.top_row();
            let bottom = after.bottom_row();
            &&& after.generation == m.generation + 1
            &&& after.commands.take(m.commands.len() as int) == m.commands
            &&& new.len() > 0
            &&& new[0] == Command::Advance((m.generation + 1) as u64)
            &&& forall|i: int|
                1 <= i < new.len() ==> asks_within(
                    after,
                    #[trigger] new[i],
                    top,
                    bottom + 1,
                    false,
                ) || asks_within(
                    after,
                    new[i],
                    max(top - PREFETCH_ROWS, 0),
                    bottom + PREFETCH_ROWS + 1,
                    true,
                )
            &&& forall|i: int|
                1 <= i < new.len() ==> after.needs(row_of(after, page_asked(#[trigger] new[i])))
            &&& forall|i: int, j: int|
                1 <= i < j < new.len() && !is_prefetch(#[trigger] new[j]) ==> !is_prefetch(
                    #[trigger] new[i],
                ) && page_asked(new[i]) < page_asked(new[j])
            &&& forall|i: int, j: int|
                1 <= i < j < new.len() ==> page_asked(#[trigger] new[i]) != page_asked(
                    #[trigger] new[j],
                )
        }),
{
    lemma_rows(m);
    let moved = Model {
        scroll: max(offset, 0),
        current_row: min(nearest_row(offset, m.pitch()), m.last_row()),
        ..m
    }.update_current_page();
    law_visible_rows_are_requested_first(moved, false);
    let after = m.scrolled(offset);
    let new = after.commands.skip(m.commands.len() as int);
    assert(after == moved.request_visible(false));
    assert forall|i: int| 1 <= i < new.len() implies after.needs(
        row_of(after, page_asked(#[trigger] new[i])),
    ) by {
        assert(moved.needs(row_of(moved, page_asked(new[i]))));
    }
}

/// Each scroll is a newer view than the one before, whatever happened in between: all
/// that the later one asks for carries one epoch, which is newer than that of
/// anything that the earlier one asked for, and it is announced first.
pub proof fn law_each_scroll_is_a_newer_view(m: Model, first: int, later: Model, second: int)
    requires
        m.wf(),
        m.generation < u64::MAX,
        m.continuous,
        m.pages.len() > 0,
        later.wf(),
        later.continuous,
        later.pages == m.pages,
        m.scrolled(first).generation <= later.generation < u64::MAX,
    ensures
        ({
            let before = m.scrolled(first);
            let after = later.scrolled(second);
            let asked = before.commands.skip(m.commands.len() as int);
            let new = after.commands.skip(later.commands.len() as int);
            &&& asked.len() > 0 && asked[0] == Command::Advance(before.generation as u64)
            &&& new.len() > 0 && new[0] == Command::Advance(after.generation as u64)
            &&& before.generation < after.generation <= u64::MAX
            &&& forall|i: int|
                1 <= i < asked.len() ==> ((#[trigger] asked[i]) matches Command::Render(request)
                    && request.generation == before.generation)
            &&& forall|i: int|
                1 <= i < new.len() ==> ((#[trigger] new[i]) matches Command::Render(request)
                    && request.generation == after.generation)
        }),
{
    law_scrolling_requests_visible_rows_first(m, first);
    law_scrolling_requests_visible_rows_first(later, second);
}

/// Where scrolling finds all rows in and near the view rendered, it asks for
/// nothing.
pub proof fn law_rendered_pages_are_not_requested_again(m: Model, offset: int)
    requires
        m.wf(),
        m.generation < u64::MAX,
        m.continuous,
        m.pages.len() > 0,
        forall|row: int|
            0 <= row < m.specs().len() && m.scrolled(offset).top_row() - PREFETCH_ROWS <= row
                <= m.scrolled(offset).bottom_row() + PREFETCH_ROWS ==> !(#[trigger] m.needs(row)),
    ensures
        m.scrolled(offset).commands == m.commands.push(
            Command::Advance((m.generation + 1) as u64),
        ),
{
    law_scrolling_requests_visible_rows_first(m, offset);
    let after = m.scrolled(offset);
    let new = after.commands.skip(m.commands.len() as int);
    if new.len() > 1 {
        let page = page_asked(new[1]);
        law_each_page_has_one_place(m.pages.len() as int, m.spread, page);
        lemma_rows(m);
        lemma_on_screen_rows(after);
        assert(after.needs(row_of(after, page)));
        assert(!m.needs(row_of(m, page)));
        assert(false);
    }
    assert(after.commands =~= after.commands.take(m.commands.len() as int) + new);
    assert(after.commands =~= m.commands.push(Command::Advance((m.generation + 1) as u64)));
}

/// Scrolling leaves out no visible page that is not rendered.
pub proof fn law_scrolling_requests_every_missing_page(m: Model, offset: int, page: int)
    requires
        m.wf(),
        m.generation < u64::MAX,
        m.continuous,
        0 <= page < m.pages.len(),
        !m.retained.contains(page as usize),
        m.scrolled(offset).top_row() <= row_of(m, page) <= m.scrolled(offset).bottom_row(),
    ensures
        m.scrolled(offset).commands.contains(
            m.scrolled(offset).request(page as usize, false),
        ),
{
    lemma_rows(m);
    let moved = Model {
        scroll: max(offset, 0),
        current_row: min(nearest_row(offset, m.pitch()), m.last_row()),
        ..m
    }.update_current_page();
    let next = moved.advance_epoch();
    let after = m.scrolled(offset);
    let visible = next.requests(moved.top_row(), moved.bottom_row() + 1, false, false);
    law_each_page_has_one_place(m.pages.len() as int, m.spread, page);
    assert(next.needs(row_of(next, page)));
    law_requests_leave_nothing_out(
        next,
        moved.top_row(),
        moved.bottom_row() + 1,
        false,
        false,
        page,
    );
    let asked = next.request(page as usize, false);
    let i = choose|i: int| 0 <= i < visible.len() && visible[i] == asked;
    assert(after.commands[next.commands.len() + i] == asked);
}

/// A change of zoom asks for every page in view, at the new scale, rendered or not.
pub proof fn law_zooming_requests_every_visible_page(m: Model, zoom: int, page: int)
    requires
        m.wf(),
        m.generation < u64::MAX,
        m.continuous,
        0 <= page < m.pages.len(),
        m.set_zoom(zoom).top_row() <= row_of(m, page) <= m.set_zoom(zoom).bottom_row(),
    ensures
        m.set_zoom(zoom).commands.contains(m.set_zoom(zoom).request(page as usize, false)),
        m.set_zoom(zoom).generation == m.generation + 1,
{
    lemma_rows(m);
    let zoomed = Model {
        fit: FitMode::Free,
        zoom: clamp(zoom, MIN_ZOOM as int, MAX_ZOOM as int),
        ..m
    }.apply_density();
    let next = zoomed.advance_epoch();
    let after = m.set_zoom(zoom);
    let visible = next.requests(zoomed.top_row(), zoomed.bottom_row() + 1, true, false);
    law_requests_leave_nothing_out(
        next,
        zoomed.top_row(),
        zoomed.bottom_row() + 1,
        true,
        false,
        page,
    );
    let asked = next.request(page as usize, false);
    let i = choose|i: int| 0 <= i < visible.len() && visible[i] == asked;
    assert(after.commands[next.commands.len() + i] == asked);
}

/// Jumping to a row asks for its pages first, rendered or not, then at low priority
/// for those of the rows next to it that need rendering.
pub proof fn law_jumping_requests_the_current_row_first(m: Model)
    requires
        m.wf(),
        m.generation < u64::MAX,
        m.pages.len() > 0,
    ensures
        ({
            let after = m.request_current_row();
            let new = after.commands.skip(m.commands.len() as int);
            let first = after.row_requests(m.current_row, false);
            &&& after.generation == m.generation + 1
            &&& after.commands.take(m.commands.len() as int) == m.commands
            &&& new.take(1 + first.len() as int) == seq![Command::Advance((m.generation + 1) as u64)]
                + first
            &&& forall|i: int|
                1 + first.len() <= i < new.len() ==> asks_within(
                    after,
                    #[trigger] new[i],
                    max(m.current_row - PREFETCH_ROWS, 0),
                    m.current_row + PREFETCH_ROWS + 1,
                    true,
                ) && after.needs(row_of(after, page_asked(new[i]))) && row_of(
                    after,
                    page_asked(new[i]),
                ) != m.current_row
        }),
{
    lemma_rows(m);
    let next = m.advance_epoch();
    let after = m.request_current_row();
    let new = after.commands.skip(m.commands.len() as int);
    let start = max(m.current_row - PREFETCH_ROWS, 0);
    let end = min(m.current_row + PREFETCH_ROWS, m.last_row()) + 1;
    let first = next.row_requests(m.current_row, false);
    let above = next.requests(start, m.current_row, false, true);
    let below = next.requests(m.current_row + 1, end, false, true);
    law_requests_go_from_top_to_bottom(next, start, m.current_row, false, true);
    law_requests_go_from_top_to_bottom(next, m.current_row + 1, end, false, true);
    assert(after.row_requests(m.current_row, false) == first);
    assert(after.commands.take(m.commands.len() as int) =~= m.commands);
    assert(new =~= seq![Command::Advance((m.generation + 1) as u64)] + first + above + below);
    assert(new.take(1 + first.len() as int) =~= seq![Command::Advance((m.generation + 1) as u64)] + first);
    let a = 1 + first.len() as int;
    let b = a + above.len() as int;
    assert forall|i: int| a <= i < new.len() implies asks_within(
        after,
        #[trigger] new[i],
        max(m.current_row - PREFETCH_ROWS, 0),
        m.current_row + PREFETCH_ROWS + 1,
        true,
    ) && after.needs(row_of(after, page_asked(new[i]))) && row_of(after, page_asked(new[i]))
        != m.current_row by {
        if i < b {
            assert(new[i] == above[i - a]);
            assert(asks_within(next, above[i - a], start, m.current_row, true));
        } else {
            assert(new[i] == below[i - b]);
            assert(asks_within(next, below[i - b], m.current_row + 1, end, true));
        }
    }
}

}
