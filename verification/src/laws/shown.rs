//! What paged mode has on show: which row, where it stands, and what is asked for it.

use vstd::prelude::*;

use super::lemma_rows;
use super::measure::toolbar_shows_the_page;
use super::requests::row_of;
use crate::geometry::{clamp, density_at, MAX_ZOOM, MIN_ZOOM};
use crate::layout::{
    law_each_page_has_one_place, law_rows_keep_page_order, page_slot, row_specs, PageSize, Spread,
};
use crate::model::{Command, FitMode, Model, WindowModel};
use crate::render::RenderRequest;

verus! {

/// The row on show is the current one, as it is: with the images that its pages have.
pub open spec fn current_row_on_show(m: Model) -> bool {
    m.window.current_row_content == m.rows[m.current_row]
}

/// In paged mode the current row is on show.
pub open spec fn paged_mode_shows_the_row(m: Model) -> bool {
    !m.continuous && m.pages.len() > 0 ==> current_row_on_show(m)
}

/// A rendered page that is on show in paged mode gets its picture there, on whichever
/// side it stands, and a page on show that is evicted loses it: what is on show stays
/// the current row.
pub proof fn law_a_page_on_show_gets_its_picture(m: Model, page: int, image: u64)
    requires
        m.wf(),
        !m.continuous,
        0 <= page < m.pages.len(),
        current_row_on_show(m),
    ensures
        ({
            let after = m.on_page_rendered(page, image);
            &&& current_row_on_show(after)
            &&& after.current_row == m.current_row
            &&& row_of(m, page) == m.current_row && !page_slot(m.spread, page).1
                ==> after.window.current_row_content.left.image == Some(image)
            &&& row_of(m, page) == m.current_row && page_slot(m.spread, page).1
                ==> after.window.current_row_content.right.image == Some(image)
        }),
{
    law_each_page_has_one_place(m.pages.len() as int, m.spread, page);
    super::images::lemma_shown_after(m, page, image, page);
}

/// Every page of a row is asked for at high priority, in the newest view and at its
/// scale, and the view is announced, among the commands that came in since `m`.
pub open spec fn asks_for_row(m: Model, after: Model, row: int) -> bool {
    let new = after.commands.skip(m.commands.len() as int);
    &&& new.contains(Command::Advance(after.generation as u64))
    &&& forall|page: int|
        0 <= page < m.pages.len() && #[trigger] row_of(after, page) == row ==> new.contains(
            Command::Render(
                RenderRequest {
                    page: page as i32,
                    scale: after.scale() as u64,
                    generation: after.generation as u64,
                    prefetch: false,
                },
            ),
        )
}

/// What is asked for the current row.
pub proof fn lemma_asks_for_current_row(before: Model, m: Model)
    requires
        m.pages.len() <= i32::MAX,
        before.pages == m.pages,
        0 <= m.current_row < m.specs().len(),
        before.commands.len() <= m.commands.len(),
    ensures
        asks_for_row(before, m.request_current_row(), m.current_row),
{
    let next = m.advance_epoch();
    let after = m.request_current_row();
    let new = after.commands.skip(before.commands.len() as int);
    let row = m.current_row;
    let skipped = before.commands.len() as int;
    let at = m.commands.len() - skipped;
    assert(after.commands[m.commands.len() as int] == Command::Advance(after.generation as u64));
    assert(new[at] == Command::Advance(after.generation as u64));
    let first = next.row_requests(row, false);
    assert forall|page: int|
        0 <= page < m.pages.len() && #[trigger] row_of(after, page) == row implies new.contains(
        Command::Render(
            RenderRequest {
                page: page as i32,
                scale: after.scale() as u64,
                generation: after.generation as u64,
                prefetch: false,
            },
        ),
    ) by {
        law_each_page_has_one_place(m.pages.len() as int, m.spread, page);
        if page_slot(m.spread, page).1 {
            assert(after.commands[m.commands.len() as int + 2] == first[1]);
            assert(new[at + 2] == first[1]);
        } else {
            assert(after.commands[m.commands.len() as int + 1] == first[0]);
            assert(new[at + 1] == first[0]);
        }
    }
}

/// What paged mode publishes of where its content stands is right. Content that does
/// not fit stands as far off as it was scrolled; content that fits is centered.
pub open spec fn content_in_place(m: Model) -> bool {
    let view = m.view_size();
    let window = m.window;
    &&& (window.paged_content_w, window.paged_content_h) == m.paged_content()
    &&& window.paged_content_w > view.0 ==> {
        &&& window.paged_offset_x == -m.paged_x
        &&& 0 <= m.paged_x <= window.paged_content_w - view.0
    }
    &&& window.paged_content_h > view.1 ==> {
        &&& window.paged_offset_y == -m.paged_y
        &&& 0 <= m.paged_y <= window.paged_content_h - view.1
    }
    &&& window.paged_content_w <= view.0 ==> {
        &&& m.paged_x == 0
        &&& 0 <= view.0 - window.paged_content_w - 2 * window.paged_offset_x <= 1
    }
    &&& window.paged_content_h <= view.1 ==> {
        &&& m.paged_y == 0
        &&& 0 <= view.1 - window.paged_content_h - 2 * window.paged_offset_y <= 1
    }
}

/// Going to a row in paged mode shows it from its top, in its place, and asks for its
/// pages: by a jump to a page, Home, and the page keys.
pub proof fn law_a_jump_shows_the_row(m: Model, row: int)
    requires
        m.wf(),
        !m.continuous,
        0 <= row < m.specs().len(),
    ensures
        ({
            let after = m.scroll_to_row(row);
            &&& after.current_row == row
            &&& current_row_on_show(after)
            &&& after.window.current_row_content == m.rows[row]
            &&& after.paged_x == 0 && after.paged_y == 0
            &&& content_in_place(after)
            &&& asks_for_row(m, after, row)
            &&& toolbar_shows_the_page(after)
        }),
{
    lemma_rows(m);
    let top = Model {
        current_row: row,
        scroll: row * m.pitch(),
        paged_x: 0,
        paged_y: 0,
        ..m
    }.refresh_current_row();
    lemma_asks_for_current_row(m, top);
    let asked = top.request_current_row();
    let after = m.scroll_to_row(row);
    assert(after.commands == asked.commands);
    assert(asks_for_row(m, asked, row));
    lemma_same_request(m, asked, after, row);
}

/// What is asked for does not depend on what is published.
proof fn lemma_same_request(m: Model, asked: Model, after: Model, row: int)
    requires
        asks_for_row(m, asked, row),
        after.commands == asked.commands,
        after.generation == asked.generation,
        after.zoom == asked.zoom,
        after.scale_factor == asked.scale_factor,
        after.spread == asked.spread,
    ensures
        asks_for_row(m, after, row),
{
    assert forall|page: int|
        0 <= page < m.pages.len() && #[trigger] row_of(after, page)
            == row implies after.commands.skip(m.commands.len() as int).contains(
        Command::Render(
            RenderRequest {
                page: page as i32,
                scale: after.scale() as u64,
                generation: after.generation as u64,
                prefetch: false,
            },
        ),
    ) by {
        assert(row_of(asked, page) == row);
    }
}

/// In paged mode End shows the last row from its top, in its place, and asks for its
/// pages; the toolbar shows the last page.
pub proof fn law_end_shows_the_last_row(m: Model)
    requires
        m.wf(),
        !m.continuous,
        m.pages.len() > 0,
    ensures
        ({
            let after = m.nav_end();
            let row = m.specs().len() - 1;
            &&& after.current_row == row
            &&& after.window.current_row_content == m.rows[row]
            &&& after.paged_x == 0 && after.paged_y == 0
            &&& content_in_place(after)
            &&& asks_for_row(m, after, row)
            &&& after.window.current_page == m.pages.len()
        }),
{
    lemma_rows(m);
    let top = Model {
        current_row: m.last_row(),
        scroll: 0,
        paged_x: 0,
        paged_y: 0,
        ..m
    }.refresh_current_row();
    lemma_asks_for_current_row(m, top);
    lemma_same_request(m, top.request_current_row(), m.nav_end(), m.last_row());
}

/// In continuous mode a jump to a row, and End, ask for the row that they lead to, and
/// move the list there first.
pub proof fn law_a_jump_in_the_list_asks_for_the_row(m: Model, row: int)
    requires
        m.wf(),
        m.continuous,
        0 <= row < m.specs().len(),
    ensures
        asks_for_row(m, m.scroll_to_row(row), row),
        asks_for_row(m, m.nav_end(), m.specs().len() - 1),
{
    lemma_rows(m);
    let offset = row * m.pitch();
    let there = Model { current_row: row, scroll: offset, ..m }.scroll_list(-offset);
    lemma_asks_for_current_row(m, there);
    lemma_same_request(m, there.request_current_row(), m.scroll_to_row(row), row);
    let limit = m.scroll_limit();
    let end = Model { current_row: m.last_row(), scroll: limit, ..m }.scroll_list(-limit);
    lemma_asks_for_current_row(m, end);
    lemma_same_request(m, end.request_current_row(), m.nav_end(), m.last_row());
}

/// Turning a page with the wheel or an arrow key shows the row turned to, in its place,
/// and asks for its pages.
pub proof fn law_a_turned_page_is_shown(m: Model, delta_x: int, delta_y: int)
    requires
        m.wf(),
        m.paged_scroll(delta_x, delta_y, false).current_row != m.current_row,
    ensures
        ({
            let after = m.paged_scroll(delta_x, delta_y, false);
            let row = after.current_row;
            &&& row == m.current_row + 1 || row == m.current_row - 1
            &&& row == m.current_row + 1 <==> delta_y < 0
            &&& after.window.current_row_content == m.rows[row]
            &&& content_in_place(after)
            &&& asks_for_row(m, after, row)
        }),
{
    lemma_rows(m);
    let after = m.paged_scroll(delta_x, delta_y, false);
    let row = after.current_row;
    let moved = Model { current_row: row, paged_x: 0, ..m };
    let placed = Model {
        paged_y: if delta_y > 0 {
            moved.paged_limit().1
        } else {
            0
        },
        ..moved
    }.refresh_current_row();
    lemma_asks_for_current_row(m, placed);
    lemma_same_request(m, placed.request_current_row(), after, row);
}

/// Within a page the wheel moves what is on show by as much as it is turned, as far as
/// the page goes.
pub proof fn law_the_wheel_moves_the_page(m: Model, delta_x: int, delta_y: int)
    requires
        content_in_place(m),
        m.window.paged_content_h > m.view_size().1,
        delta_y < 0 ==> m.paged_y < m.window.paged_content_h - m.view_size().1 - 500_000,
        delta_y > 0 ==> m.paged_y > 500_000,
    ensures
        ({
            let after = m.paged_scroll(delta_x, delta_y, false);
            let y = m.window.paged_offset_y + delta_y;
            let lowest = m.view_size().1 - m.window.paged_content_h;
            &&& content_in_place(after)
            &&& lowest <= y <= 0 ==> after.window.paged_offset_y == y
            &&& y > 0 ==> after.window.paged_offset_y == 0
            &&& y < lowest ==> after.window.paged_offset_y == lowest
        }),
{
}

/// With shift the wheel moves what is on show sideways by as much as it is turned, as
/// far as the page goes.
pub proof fn law_the_wheel_with_shift_moves_sideways(m: Model, delta_x: int, delta_y: int)
    requires
        content_in_place(m),
    ensures
        ({
            let after = m.paged_scroll(delta_x, delta_y, true);
            let x = m.window.paged_offset_x + delta_y;
            let furthest = m.view_size().0 - m.window.paged_content_w;
            &&& content_in_place(after)
            &&& after.window.paged_offset_y == m.window.paged_offset_y
            &&& furthest < 0 && furthest <= x <= 0 ==> after.window.paged_offset_x == x
            &&& furthest < 0 && x > 0 ==> after.window.paged_offset_x == 0
            &&& furthest < 0 && x < furthest ==> after.window.paged_offset_x == furthest
            &&& furthest >= 0 ==> after.window.paged_offset_x == m.window.paged_offset_x
        }),
{
}

/// An arrow key moves a tall page in paged mode by 120 pixels, as far as it goes.
pub proof fn law_arrow_keys_move_the_page(m: Model, dir: int)
    requires
        !m.continuous,
        content_in_place(m),
        m.window.paged_content_h > m.view_size().1,
        dir == 1 || dir == -1,
        dir == 1 ==> m.paged_y < m.window.paged_content_h - m.view_size().1 - 500_000,
        dir == -1 ==> m.paged_y > 500_000,
    ensures
        ({
            let after = m.nav_line(dir);
            let y = m.window.paged_offset_y - dir * 120_000_000;
            let lowest = m.view_size().1 - m.window.paged_content_h;
            &&& after.current_row == m.current_row
            &&& lowest <= y <= 0 ==> after.window.paged_offset_y == y
            &&& y > 0 ==> after.window.paged_offset_y == 0
            &&& y < lowest ==> after.window.paged_offset_y == lowest
        }),
{
}

/// At the lower edge of a tall page its bottom is in view: it meets that of the view.
/// At the upper edge its top does.
pub proof fn law_at_its_edges_a_page_meets_the_view(m: Model)
    requires
        content_in_place(m),
        m.window.paged_content_h > m.view_size().1,
    ensures
        m.paged_y == m.paged_limit().1 ==> m.window.paged_offset_y + m.window.paged_content_h
            == m.view_size().1,
        m.paged_y == 0 ==> m.window.paged_offset_y == 0,
{
}

/// Publishing leaves the content of paged mode in its place.
proof fn lemma_pushed(m: Model)
    ensures
        content_in_place(m.push_paged_offsets()),
{
}

/// What the place of the content depends on.
proof fn lemma_still_in_place(m: Model, after: Model)
    requires
        content_in_place(m),
        after.pages == m.pages,
        after.spread == m.spread,
        after.zoom == m.zoom,
        after.view == m.view,
        after.current_row == m.current_row,
        after.paged_x == m.paged_x,
        after.paged_y == m.paged_y,
        after.window.paged_offset_x == m.window.paged_offset_x,
        after.window.paged_offset_y == m.window.paged_offset_y,
        after.window.paged_content_w == m.window.paged_content_w,
        after.window.paged_content_h == m.window.paged_content_h,
    ensures
        content_in_place(after),
{
}

/// A change of the zoom leaves the content of paged mode in its place.
pub proof fn law_zooming_keeps_the_content_in_place(m: Model, zoom: int)
    ensures
        content_in_place(m.set_zoom(zoom)),
{
    lemma_zoomed_in_place(Model { fit: FitMode::Free, ..m }, zoom);
}

proof fn lemma_zoomed_in_place(m: Model, zoom: int)
    ensures
        content_in_place(m.with_zoom(zoom)),
{
    let zoomed = Model {
        zoom: clamp(
            zoom,
            MIN_ZOOM as int,
            MAX_ZOOM as int,
        ),
        ..m
    };
    let published = zoomed.apply_density();
    lemma_pushed(
        Model {
            window: WindowModel {
                density: density_at(zoomed.zoom),
                ..zoomed.window
            },
            ..zoomed
        },
    );
    lemma_still_in_place(published, m.with_zoom(zoom));
}

/// A change of the viewport leaves the content of paged mode in its place.
pub proof fn law_resizing_keeps_the_content_in_place(
    m: Model,
    width: int,
    height: int,
    scale_factor: int,
)
    ensures
        content_in_place(m.set_viewport(width, height, scale_factor)),
{
    let change = scale_factor - m.scale_factor;
    let sized = Model { view: Some((width, height)), scale_factor, ..m };
    let drawn = if m.fit != FitMode::Free {
        sized.apply_fit()
    } else if change > 1_000 || change < -1_000 {
        sized.rerender_view()
    } else {
        sized
    };
    lemma_pushed(drawn);
}

/// Fitting leaves the content of paged mode in its place.
pub proof fn law_fitting_keeps_the_content_in_place(m: Model, fit: FitMode)
    requires
        m.view is Some,
        m.ref_w() > 0,
        m.ref_h() > 0,
        fit != FitMode::Free,
    ensures
        content_in_place(m.fit_to(fit)),
{
    let fitting = Model { fit, ..m };
    assert(fitting.specs() == m.specs());
    lemma_zoomed_in_place(fitting, fitting.fitting_zoom().unwrap());
}

/// A change of the spread mode leaves the content of paged mode in its place.
pub proof fn law_a_new_spread_is_in_place(m: Model, mode: int)
    ensures
        content_in_place(m.set_spread(mode)),
{
}

/// Entering paged mode shows the current row, in its place, and asks for its pages.
/// Where nothing can be fitted, its place is published with the next move.
pub proof fn law_entering_paged_mode_shows_the_row(m: Model)
    requires
        m.wf(),
        m.continuous,
        m.pages.len() > 0,
    ensures
        ({
            let after = m.set_continuous(false);
            &&& after.current_row == m.current_row
            &&& current_row_on_show(after)
            &&& after.window.current_row_content == m.rows[m.current_row]
            &&& after.paged_x == 0 && after.paged_y == 0
            &&& m.fit == FitMode::Free || (m.view is Some && m.ref_w() > 0 && m.ref_h() > 0)
                ==> content_in_place(after)
            &&& asks_for_row(m, after, m.current_row)
        }),
{
    lemma_rows(m);
    let entered = m.enter_paged();
    let top = Model { paged_x: 0, paged_y: 0, ..m.in_mode(false) }.refresh_current_row();
    lemma_asks_for_current_row(m, top);
    lemma_same_request(m, entered, entered, m.current_row);
    let after = m.set_continuous(false);
    match entered.fitting_zoom() {
        Some(zoom) => {
            let zoomed = Model {
                zoom: clamp(
                    zoom,
                    MIN_ZOOM as int,
                    MAX_ZOOM as int,
                ),
                ..entered
            }.apply_density();
            lemma_asks_for_current_row(m, zoomed);
            let drawn = zoomed.request_current_row();
            lemma_told(m, drawn, m.current_row);
            assert(m.fit != FitMode::Free);
            lemma_told(m, drawn.update_status(), m.current_row);
            lemma_same_request(m, drawn.update_status().update_status(), after, m.current_row);
        },
        None => {
            let settled = entered.reapply_scale();
            lemma_same_request(m, entered, settled, m.current_row);
            lemma_told(m, settled, m.current_row);
            lemma_same_request(m, settled.update_status(), after, m.current_row);
        },
    }
}

/// Telling the status on takes nothing back that was asked for.
proof fn lemma_told(m: Model, asked: Model, row: int)
    requires
        asks_for_row(m, asked, row),
        m.commands.len() <= asked.commands.len(),
    ensures
        asks_for_row(m, asked.update_status(), row),
{
    let told = asked.update_status();
    let old_new = asked.commands.skip(m.commands.len() as int);
    let new = told.commands.skip(m.commands.len() as int);
    assert forall|command: Command| old_new.contains(command) implies new.contains(command) by {
        let i = choose|i: int| 0 <= i < old_new.len() && old_new[i] == command;
        assert(new[i] == command);
    }
    assert forall|page: int|
        0 <= page < m.pages.len() && #[trigger] row_of(told, page) == row implies new.contains(
        Command::Render(
            RenderRequest {
                page: page as i32,
                scale: told.scale() as u64,
                generation: told.generation as u64,
                prefetch: false,
            },
        ),
    ) by {
        assert(row_of(asked, page) == row);
    }
}

/// A change of the spread mode keeps the reader in place: the current row stays the
/// same, or is the last one where there are fewer rows now, and in paged mode it is on
/// show. The rows are those of the mode asked for.
pub proof fn law_a_new_spread_keeps_the_row(m: Model, mode: int)
    requires
        m.wf(),
        m.pages.len() > 0,
    ensures
        ({
            let after = m.set_spread(mode);
            let rows = after.rows.len();
            &&& mode == 1 <==> after.spread == Spread::Odd
            &&& mode == 2 <==> after.spread == Spread::Even
            &&& after.window.spread_mode == (if mode == 1 || mode == 2 { mode } else { 0 })
            &&& rows == row_specs(m.pages.len() as int, after.spread).len() > 0
            &&& m.current_row < rows ==> after.current_row == m.current_row
            &&& m.current_row >= rows ==> after.current_row == rows - 1
            &&& after.scroll == m.scroll
            &&& current_row_on_show(after)
            &&& toolbar_shows_the_page(after)
        }),
{
    let after = m.set_spread(mode);
    law_rows_keep_page_order(m.pages.len() as int, after.spread);
    super::measure::law_the_toolbar_follows_the_spread(m, mode);
    lemma_spread_shown(m, mode);
}

proof fn lemma_spread_shown(m: Model, mode: int)
    requires
        m.wf(),
        m.pages.len() > 0,
    ensures
        ({
            let after = m.set_spread(mode);
            let rows = after.rows.len();
            &&& rows == row_specs(m.pages.len() as int, after.spread).len()
            &&& rows > 0 ==> after.current_row == (if m.current_row < rows {
                m.current_row
            } else {
                rows - 1
            }) && current_row_on_show(after)
            &&& after.scroll == m.scroll
            &&& after.window.spread_mode == (if mode == 1 || mode == 2 { mode } else { 0 })
        }),
{
}

/// What a fresh viewer publishes of paged mode's content is right.
pub proof fn law_a_new_viewer_is_in_place(pages: Seq<PageSize>, scale_factor: int)
    ensures
        content_in_place(Model::new(pages, scale_factor)),
{
}

}
