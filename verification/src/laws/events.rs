//! What every event keeps.

use vstd::prelude::*;

use super::lemma_rows;
use super::requests::{asks_within, law_requests_go_from_top_to_bottom, lemma_on_screen_rows};
use super::scale::fitted;
use super::shown::{
    current_row_on_show, law_a_page_on_show_gets_its_picture, paged_mode_shows_the_row,
};
use crate::app::{
    after_jump, after_report, after_scaling, after_scrolling, after_switching, handled, respond, App,
    Event,
};
use crate::geometry::{
    clamp, lemma_nearest_row, nearest_row, MAX_ZOOM, MICRO, MIN_ZOOM, SCROLL_STEP,
};
use crate::layout::{
    law_rows_keep_page_order, lemma_specs_within, max, min, page_slot, PageSize, Spread,
};
use crate::model::{Command, FitMode, Model, PREFETCH_ROWS};
use crate::text::{integer, trimmed};

verus! {

/// The toolbar shows the number of a page of the document.
pub open spec fn toolbar_in_range(m: Model) -> bool {
    m.pages.len() > 0 ==> 1 <= m.window.current_page <= m.pages.len()
}

/// A command that a step from `m` to `after` may give: it speaks of pages of the
/// document, and of a view no older than the one the step started from.
pub open spec fn command_in_range(m: Model, after: Model, command: Command) -> bool {
    match command {
        Command::Advance(epoch) => m.generation < epoch <= after.generation,
        Command::Render(request) => {
            &&& 0 <= request.page < m.pages.len()
            &&& m.generation <= request.generation <= after.generation
        },
        Command::Thumbnail(page) => 0 <= page < m.pages.len(),
        Command::ScrollTo(_) => true,
        Command::ShowStatus => true,
    }
}

/// The step only adds commands, and never goes back to an older view.
pub open spec fn moves_on(m: Model, after: Model) -> bool {
    &&& after.pages == m.pages
    &&& m.generation <= after.generation
    &&& m.commands.len() <= after.commands.len()
    &&& forall|i: int|
        0 <= i < m.commands.len() ==> #[trigger] after.commands[i] == m.commands[i]
    &&& forall|i: int|
        m.commands.len() <= i < after.commands.len() ==> command_in_range(
            m,
            after,
            #[trigger] after.commands[i],
        )
}

/// Nothing that fitting depends on differs.
spec fn same_scale(m: Model, after: Model) -> bool {
    &&& after.pages == m.pages
    &&& after.view == m.view
    &&& after.fit == m.fit
    &&& after.spread == m.spread
    &&& after.zoom == m.zoom
}

proof fn lemma_moving_keeps_scale(m: Model, row: int, delta: int)
    ensures
        same_scale(m, m.scroll_to_row(row)),
        same_scale(m, m.scroll_by(delta)),
        same_scale(m, m.scrolled(delta)),
        same_scale(m, m.nav_end()),
{
}

proof fn lemma_paging_keeps_scale(m: Model, delta_x: int, delta_y: int, shift: bool)
    ensures
        same_scale(m, m.paged_scroll(delta_x, delta_y, shift)),
{
}

proof fn lemma_images_keep_scale(m: Model, page: int, image: u64)
    ensures
        same_scale(m, m.on_page_rendered(page, image)),
        same_scale(m, m.on_thumbnail_rendered(page, image)),
{
}

/// What changes the zoom, the view or the layout leaves the viewer fitted.
proof fn lemma_scaling_fits(m: Model, width: int, height: int, scale_factor: int, zoom: int)
    ensures
        m.wf() && fitted(m) ==> fitted(m.set_viewport(width, height, scale_factor)),
        fitted(m.set_zoom(zoom)),
        fitted(m.fit_to(FitMode::Width)),
        fitted(m.fit_to(FitMode::Page)),
{
}

proof fn lemma_switching_fits(m: Model, continuous: bool)
    requires
        fitted(m),
    ensures
        fitted(m.set_continuous(continuous)),
{
}

proof fn lemma_spreading_fits(m: Model, mode: int)
    ensures
        fitted(m.set_spread(mode)),
{
}

/// What requests need to be in range.
spec fn ready(m: Model) -> bool {
    &&& m.pages.len() <= i32::MAX
    &&& 0 <= m.scroll
    &&& 0 <= m.current_row
    &&& 0 <= m.zoom
    &&& 0 <= m.generation < u64::MAX
}

proof fn lemma_page_number_in_range(m: Model)
    requires
        m.pages.len() <= i32::MAX,
        0 <= m.current_row <= m.last_row(),
    ensures
        toolbar_in_range(m.update_current_page()),
{
    lemma_specs_within(m.pages.len() as int, m.spread);
    law_rows_keep_page_order(m.pages.len() as int, m.spread);
}

/// Steps one after the other.
proof fn lemma_moves_on_further(a: Model, b: Model, c: Model)
    requires
        moves_on(a, b),
        moves_on(b, c),
    ensures
        moves_on(a, c),
{
    assert forall|i: int| a.commands.len() <= i < c.commands.len() implies command_in_range(
        a,
        c,
        #[trigger] c.commands[i],
    ) by {
        if i < b.commands.len() {
            assert(c.commands[i] == b.commands[i]);
            assert(command_in_range(a, b, b.commands[i]));
        } else {
            assert(command_in_range(b, c, c.commands[i]));
        }
    }
    assert forall|i: int| 0 <= i < a.commands.len() implies #[trigger] c.commands[i]
        == a.commands[i] by {
        assert(b.commands[i] == a.commands[i]);
        assert(c.commands[i] == b.commands[i]);
    }
}

/// Requests of the current view, behind what is there.
proof fn lemma_requests_move_on(m: Model, more: Model, added: Seq<Command>)
    requires
        more.pages == m.pages,
        more.generation == m.generation,
        0 <= m.generation <= u64::MAX,
        more.commands == m.commands + added,
        all_requests(m, added),
    ensures
        moves_on(m, more),
{
    assert forall|i: int| m.commands.len() <= i < more.commands.len() implies command_in_range(
        m,
        more,
        #[trigger] more.commands[i],
    ) by {
        assert(more.commands[i] == added[i - m.commands.len()]);
        assert(is_request(m, added[i - m.commands.len()]));
    }
}

/// The command asks for a page of the document, in the current view.
spec fn is_request(m: Model, command: Command) -> bool {
    &&& command matches Command::Render(request)
    &&& 0 <= request.page < m.pages.len()
    &&& request.generation == m.generation as u64
}

spec fn all_requests(m: Model, commands: Seq<Command>) -> bool {
    forall|i: int| 0 <= i < commands.len() ==> is_request(m, #[trigger] commands[i])
}

proof fn lemma_all_requests(m: Model, from: int, to: int, force: bool, prefetch: bool)
    requires
        m.pages.len() <= i32::MAX,
        0 <= from,
    ensures
        all_requests(m, m.requests(from, to, force, prefetch)),
{
    law_requests_go_from_top_to_bottom(m, from, to, force, prefetch);
    let requests = m.requests(from, to, force, prefetch);
    assert forall|i: int| 0 <= i < requests.len() implies is_request(m, #[trigger] requests[i]) by {
        assert(asks_within(m, requests[i], from, to, prefetch));
    }
}

proof fn lemma_all_row_requests(m: Model, row: int, prefetch: bool)
    requires
        m.pages.len() <= i32::MAX,
    ensures
        all_requests(m, m.row_requests(row, prefetch)),
{
    if 0 <= row {
        lemma_all_requests(m, row, row + 1, true, prefetch);
        assert(m.requests(row, row, true, prefetch) =~= Seq::<Command>::empty());
        assert(m.requests(row, row + 1, true, prefetch) =~= m.row_requests(row, prefetch));
    }
}

proof fn lemma_all_requests_joined(m: Model, a: Seq<Command>, b: Seq<Command>)
    requires
        all_requests(m, a),
        all_requests(m, b),
    ensures
        all_requests(m, a + b),
{
    let joined = a + b;
    assert forall|i: int| 0 <= i < joined.len() implies is_request(m, #[trigger] joined[i]) by {
        if i < a.len() {
            assert(joined[i] == a[i]);
        } else {
            assert(joined[i] == b[i - a.len()]);
        }
    }
}

proof fn lemma_advancing_moves_on(m: Model)
    requires
        0 <= m.generation < u64::MAX,
    ensures
        moves_on(m, m.advance_epoch()),
{
}

proof fn lemma_visible_moves_on(m: Model, force: bool)
    requires
        ready(m),
    ensures
        moves_on(m, m.request_visible(force)),
        m.request_visible(force).generation == m.generation + 1,
{
    let next = m.advance_epoch();
    let after = m.request_visible(force);
    lemma_advancing_moves_on(m);
    if m.continuous && m.specs().len() > 0 {
        let top = m.top_row();
        let bottom = m.bottom_row();
        lemma_on_screen_rows(m);
        let visible = next.requests(top, bottom + 1, force, false);
        let end = min(bottom + PREFETCH_ROWS, m.last_row()) + 1;
        let below = next.requests(bottom + 1, end, force, true);
        let above = next.requests(max(top - PREFETCH_ROWS, 0), top, force, true);
        lemma_all_requests(next, top, bottom + 1, force, false);
        lemma_all_requests(next, bottom + 1, end, force, true);
        lemma_all_requests(next, max(top - PREFETCH_ROWS, 0), top, force, true);
        lemma_all_requests_joined(next, visible, below);
        lemma_all_requests_joined(next, visible + below, above);
        assert(after.commands =~= next.commands + (visible + below + above));
        lemma_requests_move_on(next, after, visible + below + above);
        lemma_moves_on_further(m, next, after);
    }
}

proof fn lemma_current_row_moves_on(m: Model)
    requires
        ready(m),
    ensures
        moves_on(m, m.request_current_row()),
        m.request_current_row().generation == m.generation + 1,
{
    let next = m.advance_epoch();
    let after = m.request_current_row();
    lemma_advancing_moves_on(m);
    if m.specs().len() > 0 {
        let row = m.current_row;
        let first = next.row_requests(row, false);
        let above = next.requests(max(row - PREFETCH_ROWS, 0), row, false, true);
        let end = min(row + PREFETCH_ROWS, m.last_row()) + 1;
        let below = next.requests(row + 1, end, false, true);
        lemma_all_row_requests(next, row, false);
        lemma_all_requests(next, max(row - PREFETCH_ROWS, 0), row, false, true);
        lemma_all_requests(next, row + 1, end, false, true);
        lemma_all_requests_joined(next, first, above);
        lemma_all_requests_joined(next, first + above, below);
        assert(after.commands =~= next.commands + (first + above + below));
        lemma_requests_move_on(next, after, first + above + below);
        lemma_moves_on_further(m, next, after);
    }
}

/// Nothing is asked for.
proof fn lemma_quiet_moves_on(m: Model, after: Model)
    requires
        after.pages == m.pages,
        after.generation == m.generation,
        after.commands == m.commands,
    ensures
        moves_on(m, after),
{
}

/// Something is asked for that concerns no page.
proof fn lemma_asking_moves_on(m: Model, y: int)
    ensures
        moves_on(m, m.update_status()),
        moves_on(m, m.scroll_list(y)),
{
}

proof fn lemma_rerendering_moves_on(m: Model)
    requires
        ready(m),
    ensures
        moves_on(m, m.rerender_view()),
        m.rerender_view().generation == m.generation + 1,
{
    if m.continuous {
        lemma_visible_moves_on(m, true);
    } else {
        lemma_current_row_moves_on(m);
    }
}

/// Zooming starts one new view, and leaves the toolbar alone.
proof fn lemma_zooming_moves_on(m: Model, zoom: int)
    requires
        ready(m),
    ensures
        moves_on(m, m.with_zoom(zoom)),
        m.with_zoom(zoom).generation == m.generation + 1,
        m.with_zoom(zoom).window.current_page == m.window.current_page,
{
    let zoomed = Model {
        zoom: clamp(zoom, MIN_ZOOM as int, MAX_ZOOM as int),
        ..m
    }.apply_density();
    let drawn = zoomed.rerender_view();
    lemma_quiet_moves_on(m, zoomed);
    lemma_rerendering_moves_on(zoomed);
    lemma_moves_on_further(m, zoomed, drawn);
    lemma_asking_moves_on(drawn, 0);
    lemma_moves_on_further(m, drawn, drawn.update_status());
}

proof fn lemma_fitting_moves_on(m: Model)
    requires
        ready(m),
    ensures
        moves_on(m, m.apply_fit()),
        moves_on(m, m.reapply_scale()),
        m.apply_fit().generation <= m.generation + 1,
        m.reapply_scale().generation <= m.generation + 1,
        m.apply_fit().window.current_page == m.window.current_page,
        m.reapply_scale().window.current_page == m.window.current_page,
{
    if let Some(zoom) = m.fitting_zoom() {
        lemma_zooming_moves_on(m, zoom);
    } else {
        lemma_quiet_moves_on(m, m);
    }
    lemma_quiet_moves_on(m, m.apply_density());
}

/// What every event keeps.
spec fn kept(m: Model, after: Model) -> bool {
    kept_if(m, after, true)
}

/// What every event keeps, and, where `shows` is set, the row on show.
#[verifier::opaque]
spec fn kept_if(m: Model, after: Model, shows: bool) -> bool {
    &&& moves_on(m, after)
    &&& toolbar_in_range(m) ==> toolbar_in_range(after)
    &&& fitted(m) ==> fitted(after)
    &&& shows && paged_mode_shows_the_row(m) ==> paged_mode_shows_the_row(after)
}

proof fn lemma_zoom_kept(m: Model, zoom: int)
    requires
        ready(m),
    ensures
        kept(m, m.set_zoom(zoom)),
{
    reveal(kept_if);
    let free = Model { fit: FitMode::Free, ..m };
    lemma_zooming_moves_on(free, zoom);
    lemma_quiet_moves_on(m, free);
    lemma_moves_on_further(m, free, m.set_zoom(zoom));
    lemma_scaling_fits(m, 0, 0, 0, zoom);
}

proof fn lemma_fit_kept(m: Model, fit: FitMode)
    requires
        ready(m),
        fit != FitMode::Free,
    ensures
        kept(m, m.fit_to(fit)),
{
    reveal(kept_if);
    let fitting = Model { fit, ..m };
    lemma_fitting_moves_on(fitting);
    lemma_quiet_moves_on(m, fitting);
    lemma_moves_on_further(m, fitting, m.fit_to(fit));
    lemma_scaling_fits(m, 0, 0, 0, 0);
}

proof fn lemma_viewport_kept(m: Model, width: int, height: int, scale_factor: int)
    requires
        m.wf(),
        m.generation < u64::MAX,
    ensures
        kept(m, m.set_viewport(width, height, scale_factor)),
{
    reveal(kept_if);
    let sized = Model { view: Some((width, height)), scale_factor, ..m };
    let after = m.set_viewport(width, height, scale_factor);
    lemma_quiet_moves_on(m, sized);
    lemma_fitting_moves_on(sized);
    lemma_rerendering_moves_on(sized);
    let drawn = if m.fit != FitMode::Free {
        sized.apply_fit()
    } else if scale_factor - m.scale_factor > 1_000 || scale_factor - m.scale_factor < -1_000 {
        sized.rerender_view()
    } else {
        sized
    };
    lemma_quiet_moves_on(sized, sized);
    lemma_moves_on_further(m, sized, drawn);
    lemma_quiet_moves_on(drawn, after);
    lemma_moves_on_further(m, drawn, after);
    assert(after.window.current_page == m.window.current_page);
    lemma_scaling_fits(m, width, height, scale_factor, 0);
}

proof fn lemma_mode_kept(m: Model, continuous: bool)
    requires
        m.wf(),
        m.generation + 2 <= u64::MAX,
    ensures
        kept(m, m.set_continuous(continuous)),
{
    reveal(kept_if);
    let after = m.set_continuous(continuous);
    if m.continuous == continuous {
        lemma_quiet_moves_on(m, after);
    } else {
        let moved = if continuous {
            m.enter_continuous()
        } else {
            m.enter_paged()
        };
        assert(moves_on(m, moved)) by {
            if continuous {
                let target = clamp(m.current_row * m.pitch(), 0, m.scroll_limit());
                let scrolled = Model { scroll: target, ..m.in_mode(true) };
                lemma_quiet_moves_on(m, scrolled);
                lemma_asking_moves_on(scrolled, -target);
                lemma_moves_on_further(m, scrolled, moved);
            } else {
                let top = Model { paged_x: 0, paged_y: 0, ..m.in_mode(false) }
                    .refresh_current_row();
                lemma_quiet_moves_on(m, top);
                lemma_current_row_moves_on(top);
                lemma_moves_on_further(m, top, moved);
            }
        }
        assert(ready(moved));
        let rescaled = moved.reapply_scale();
        lemma_fitting_moves_on(moved);
        lemma_moves_on_further(m, moved, rescaled);
        let told = rescaled.update_status();
        lemma_asking_moves_on(rescaled, 0);
        lemma_moves_on_further(m, rescaled, told);
        lemma_quiet_moves_on(told, after);
        lemma_moves_on_further(m, told, after);
        lemma_same_rows(moved);
        lemma_page_number_in_range(told);
        assert(after == told.update_current_page());
        if fitted(m) {
            lemma_switching_fits(m, continuous);
        }
    }
}

/// Scaling leaves the rows and the current one alone.
proof fn lemma_same_rows(m: Model)
    ensures
        m.reapply_scale().current_row == m.current_row,
        m.reapply_scale().pages == m.pages,
        m.reapply_scale().spread == m.spread,
{
}

proof fn lemma_spread_kept(m: Model, mode: int)
    requires
        m.wf(),
        m.generation + 2 <= u64::MAX,
    ensures
        kept(m, m.set_spread(mode)),
{
    reveal(kept_if);
    let after = m.set_spread(mode);
    let spread = if mode == 1 {
        Spread::Odd
    } else if mode == 2 {
        Spread::Even
    } else {
        Spread::Single
    };
    let laid_out = m.build_layout(spread);
    lemma_layout_moves_on(m, spread);
    let rescaled = laid_out.reapply_scale();
    lemma_fitting_moves_on(laid_out);
    lemma_moves_on_further(m, laid_out, rescaled);
    let told = rescaled.update_status();
    lemma_asking_moves_on(rescaled, 0);
    lemma_moves_on_further(m, rescaled, told);
    lemma_quiet_moves_on(told, after);
    lemma_moves_on_further(m, told, after);
    lemma_same_rows(laid_out);
    lemma_page_number_in_range(told);
    assert(after == told.update_current_page());
    lemma_spreading_fits(m, mode);
}

proof fn lemma_layout_moves_on(m: Model, spread: Spread)
    requires
        m.wf(),
        m.generation + 2 <= u64::MAX,
    ensures
        moves_on(m, m.build_layout(spread)),
        ready(m.build_layout(spread)),
        m.build_layout(spread).spread == spread,
        0 <= m.build_layout(spread).current_row <= m.build_layout(spread).last_row(),
{
    let laid_out = m.laid_out(spread).refresh_current_row();
    let asked = if laid_out.continuous {
        laid_out
    } else {
        laid_out.request_current_row()
    };
    lemma_quiet_moves_on(m, laid_out);
    lemma_current_row_moves_on(laid_out);
    lemma_quiet_moves_on(laid_out, laid_out);
    lemma_moves_on_further(m, laid_out, asked);
    lemma_quiet_moves_on(asked, m.build_layout(spread));
    lemma_moves_on_further(m, asked, m.build_layout(spread));
}

proof fn lemma_scrolled_kept(m: Model, offset: int)
    requires
        m.wf(),
        m.generation < u64::MAX,
    ensures
        kept_if(m, m.scrolled(offset), m.continuous),
{
    reveal(kept_if);
    lemma_moving_keeps_scale(m, 0, offset);
    if m.specs().len() == 0 {
        lemma_quiet_moves_on(m, m.scrolled(offset));
    } else {
        let moved = Model {
            scroll: max(offset, 0),
            current_row: min(nearest_row(offset, m.pitch()), m.last_row()),
            ..m
        };
        let numbered = moved.update_current_page();
        lemma_rows(m);
        if offset > 0 {
            lemma_nearest_row(offset, m.pitch());
        }
        lemma_page_number_in_range(moved);
        lemma_quiet_moves_on(m, numbered);
        lemma_visible_moves_on(numbered, false);
        lemma_moves_on_further(m, numbered, m.scrolled(offset));
    }
}

proof fn lemma_scroll_by_kept(m: Model, delta: int)
    requires
        m.wf(),
    ensures
        kept(m, m.scroll_by(delta)),
{
    reveal(kept_if);
    let target = clamp(m.scroll + delta, 0, m.scroll_limit());
    let moved = Model { scroll: target, ..m };
    let listed = moved.scroll_list(-target);
    lemma_moving_keeps_scale(m, 0, delta);
    lemma_quiet_moves_on(m, moved);
    lemma_asking_moves_on(moved, -target);
    lemma_moves_on_further(m, moved, listed);
    lemma_quiet_moves_on(listed, m.scroll_by(delta));
    lemma_moves_on_further(m, listed, m.scroll_by(delta));
    lemma_page_number_in_range(listed);
}

/// A row is shown: the list goes there, or the paged view does.
proof fn lemma_showing_moves_on(moved: Model, y: int)
    requires
        ready(moved),
        moved.current_row <= moved.last_row(),
    ensures
        moves_on(moved, moved.scroll_list(y).request_current_row().update_current_page()),
        moves_on(moved, moved.show_row().update_current_page()),
        toolbar_in_range(moved.scroll_list(y).request_current_row().update_current_page()),
        toolbar_in_range(moved.show_row().update_current_page()),
{
    let listed = moved.scroll_list(y);
    let asked = listed.request_current_row();
    lemma_asking_moves_on(moved, y);
    lemma_current_row_moves_on(listed);
    lemma_moves_on_further(moved, listed, asked);
    lemma_quiet_moves_on(asked, asked.update_current_page());
    lemma_moves_on_further(moved, asked, asked.update_current_page());
    lemma_page_number_in_range(asked);
    let fresh = moved.refresh_current_row();
    let drawn = fresh.request_current_row();
    let shown = moved.show_row();
    lemma_quiet_moves_on(moved, fresh);
    lemma_current_row_moves_on(fresh);
    lemma_moves_on_further(moved, fresh, drawn);
    lemma_quiet_moves_on(drawn, shown.update_current_page());
    lemma_moves_on_further(moved, drawn, shown.update_current_page());
    lemma_page_number_in_range(shown);
}

proof fn lemma_to_row_kept(m: Model, row: int)
    requires
        m.wf(),
        m.generation < u64::MAX,
        0 <= row,
    ensures
        kept(m, m.scroll_to_row(row)),
{
    reveal(kept_if);
    lemma_moving_keeps_scale(m, row, 0);
    if m.specs().len() == 0 {
        lemma_quiet_moves_on(m, m.scroll_to_row(row));
    } else {
        let target = min(row, m.last_row());
        let offset = target * m.pitch();
        lemma_rows(m);
        assert(offset >= 0) by (nonlinear_arith)
            requires
                offset == target * m.pitch(),
                target >= 0,
                m.pitch() >= 0,
        ;
        let moved = Model { current_row: target, scroll: offset, ..m };
        let top = Model { paged_x: 0, paged_y: 0, ..moved };
        lemma_quiet_moves_on(m, moved);
        lemma_quiet_moves_on(m, top);
        lemma_showing_moves_on(moved, -offset);
        lemma_showing_moves_on(top, -offset);
        lemma_moves_on_further(m, if m.continuous { moved } else { top }, m.scroll_to_row(row));
    }
}

proof fn lemma_end_kept(m: Model)
    requires
        m.wf(),
        m.generation < u64::MAX,
    ensures
        kept(m, m.nav_end()),
{
    reveal(kept_if);
    lemma_moving_keeps_scale(m, 0, 0);
    if m.specs().len() == 0 {
        lemma_quiet_moves_on(m, m.nav_end());
    } else {
        let moved = Model {
            current_row: m.last_row(),
            scroll: if m.continuous { m.scroll_limit() } else { 0 },
            ..m
        };
        let top = Model { paged_x: 0, paged_y: 0, ..moved };
        lemma_quiet_moves_on(m, moved);
        lemma_quiet_moves_on(m, top);
        lemma_showing_moves_on(moved, -m.scroll_limit());
        lemma_showing_moves_on(top, 0);
        let start = if m.continuous { moved } else { top };
        let numbered = if m.continuous {
            moved.scroll_list(-m.scroll_limit()).request_current_row().update_current_page()
        } else {
            top.show_row().update_current_page()
        };
        lemma_moves_on_further(m, start, numbered);
        lemma_quiet_moves_on(numbered, m.nav_end());
        lemma_moves_on_further(m, numbered, m.nav_end());
    }
}

proof fn lemma_paged_kept(m: Model, delta_x: int, delta_y: int, shift: bool)
    requires
        m.wf(),
        m.generation < u64::MAX,
    ensures
        kept(m, m.paged_scroll(delta_x, delta_y, shift)),
{
    reveal(kept_if);
    lemma_paging_keeps_scale(m, delta_x, delta_y, shift);
    let across = if shift { -delta_y } else { -delta_x };
    let slid = Model {
        paged_x: clamp(m.paged_x + across, 0, m.paged_limit().0),
        ..m
    };
    lemma_quiet_moves_on(m, slid);
    lemma_step_moves_on(slid, 1);
    lemma_step_moves_on(slid, -1);
    lemma_moves_on_further(m, slid, slid.paged_step_page(1));
    lemma_moves_on_further(m, slid, slid.paged_step_page(-1));
}

proof fn lemma_step_moves_on(m: Model, dir: int)
    requires
        ready(m),
        m.current_row <= m.last_row(),
    ensures
        moves_on(m, m.paged_step_page(dir)),
        toolbar_in_range(m) ==> toolbar_in_range(m.paged_step_page(dir)),
{
    let target = clamp(m.current_row + dir, 0, m.last_row());
    if target == m.current_row {
        lemma_quiet_moves_on(m, m);
    } else {
        let moved = Model { current_row: target, paged_x: 0, ..m };
        let placed = Model {
            paged_y: if dir < 0 { moved.paged_limit().1 } else { 0 },
            ..moved
        };
        lemma_quiet_moves_on(m, placed);
        lemma_showing_moves_on(placed, 0);
        lemma_moves_on_further(m, placed, m.paged_step_page(dir));
    }
}

proof fn lemma_images_kept(m: Model, page: int, image: u64)
    requires
        m.wf(),
    ensures
        kept(m, m.on_page_rendered(page, image)),
        kept(m, m.on_thumbnail_rendered(page, image)),
{
    reveal(kept_if);
    lemma_images_keep_scale(m, page, image);
    if !m.continuous && 0 <= page < m.pages.len() && current_row_on_show(m) {
        law_a_page_on_show_gets_its_picture(m, page, image);
    }
    lemma_quiet_moves_on(m, m.on_page_rendered(page, image));
    lemma_quiet_moves_on(m, m.on_thumbnail_rendered(page, image));
}

proof fn lemma_row_events_kept(m: Model, row: int)
    requires
        m.wf(),
    ensures
        kept(m, m.request_render_row(row)),
        kept(m, m.request_thumbnail_row(row)),
{
    reveal(kept_if);
    let requests = m.row_requests(max(row, 0), false);
    lemma_all_row_requests(m, max(row, 0), false);
    lemma_requests_move_on(m, m.request_render_row(row), requests);
    lemma_specs_within(m.pages.len() as int, m.spread);
    assert(same_scale(m, m.request_render_row(row)));
    assert(same_scale(m, m.request_thumbnail_row(row)));
}

/// The row that going to a page leads to.
spec fn landing_row(m: Model, page: int) -> int {
    page_slot(m.spread, clamp(page, 0, m.pages.len() - 1)).0
}

proof fn lemma_to_page_kept(m: Model, page: int)
    requires
        m.wf(),
        m.generation < u64::MAX,
    ensures
        kept(m, m.nav_to_page(page)),
{
    if m.pages.len() == 0 {
        reveal(kept_if);
        lemma_quiet_moves_on(m, m);
    } else {
        lemma_to_row_kept(m, landing_row(m, page));
    }
}

proof fn lemma_unchanged_kept(m: Model)
    ensures
        kept(m, m),
{
    reveal(kept_if);
    lemma_quiet_moves_on(m, m);
}

proof fn lemma_reports_kept(m: Model, event: Event)
    requires
        m.wf(),
    ensures
        kept(m, after_report(m, event)),
{
    reveal(after_report);
    match event {
        Event::RequestRenderRow { row } => lemma_row_events_kept(m, row as int),
        Event::RequestThumbnailRow { row } => lemma_row_events_kept(m, row as int),
        Event::PageRendered { page, image } => lemma_images_kept(m, page as int, image),
        Event::ThumbnailRendered { page, image } => lemma_images_kept(m, page as int, image),
        _ => lemma_unchanged_kept(m),
    }
}

proof fn lemma_scale_events_kept(m: Model, event: Event)
    requires
        m.wf(),
        m.generation < u64::MAX,
    ensures
        kept(m, after_scaling(m, event)),
{
    reveal(after_scaling);
    match event {
        Event::ViewportResized { width, height, scale_factor } => lemma_viewport_kept(
            m,
            width as int,
            height as int,
            scale_factor as int,
        ),
        Event::ZoomIn => lemma_zoom_kept(m, 5 * m.zoom / 4),
        Event::ZoomOut => lemma_zoom_kept(m, 4 * m.zoom / 5),
        Event::ZoomReset => lemma_zoom_kept(m, MICRO as int),
        Event::FitWidth => lemma_fit_kept(m, FitMode::Width),
        Event::FitPage => lemma_fit_kept(m, FitMode::Page),
        _ => lemma_unchanged_kept(m),
    }
}

proof fn lemma_mode_events_kept(m: Model, event: Event)
    requires
        m.wf(),
        m.generation + 2 <= u64::MAX,
    ensures
        kept(m, after_switching(m, event)),
{
    reveal(after_switching);
    match event {
        Event::ToggleContinuous => lemma_mode_kept(m, !m.continuous),
        Event::SetContinuous { continuous } => lemma_mode_kept(m, continuous),
        Event::SetSpread { mode } => lemma_spread_kept(m, mode as int),
        _ => lemma_unchanged_kept(m),
    }
}

proof fn lemma_jumps_kept(m: Model, event: Event)
    requires
        m.wf(),
        m.generation < u64::MAX,
    ensures
        kept(m, after_jump(m, event)),
{
    reveal(after_jump);
    match event {
        Event::GoToPage { text } => {
            if let Some(number) = integer(trimmed(text@)) {
                lemma_to_page_kept(m, number - 1);
            } else {
                lemma_unchanged_kept(m);
            }
        },
        Event::GoToPageIndex { page } => lemma_to_page_kept(m, page as int),
        Event::NavPage { dir } => {
            if m.specs().len() > 0 {
                lemma_to_row_kept(m, m.jump_target(dir as int));
            } else {
                lemma_unchanged_kept(m);
            }
        },
        Event::NavHome => lemma_to_row_kept(m, 0),
        Event::NavEnd => lemma_end_kept(m),
        _ => lemma_unchanged_kept(m),
    }
}

proof fn lemma_scrolls_kept(m: Model, event: Event)
    requires
        m.wf(),
        m.generation < u64::MAX,
    ensures
        kept_if(m, after_scrolling(m, event), m.continuous || !(event is Scrolled)),
{
    reveal(after_scrolling);
    match event {
        Event::Scrolled { offset } => lemma_scrolled_kept(m, offset as int),
        Event::NavLine { dir } => {
            if m.continuous {
                lemma_scroll_by_kept(m, dir * SCROLL_STEP);
            } else {
                lemma_paged_kept(m, 0, -(dir * SCROLL_STEP), false);
            }
        },
        Event::PagedScroll { delta_x, delta_y, shift } => lemma_paged_kept(
            m,
            delta_x as int,
            delta_y as int,
            shift,
        ),
        _ => lemma_unchanged_kept(m),
    }
}

proof fn lemma_events_kept(m: Model, event: Event)
    requires
        m.wf(),
        m.generation + 2 <= u64::MAX,
    ensures
        kept_if(m, respond(m, event), m.continuous || !(event is Scrolled)),
{
    lemma_unchanged_kept(m);
    lemma_reports_kept(m, event);
    lemma_scale_events_kept(m, event);
    lemma_mode_events_kept(m, event);
    lemma_jumps_kept(m, event);
    lemma_scrolls_kept(m, event);
}

/// A fit mode stays in force: whatever happens, the zoom keeps fitting the view
/// until the reader zooms by hand.
pub proof fn law_events_keep_the_fit(m: Model, event: Event)
    requires
        m.wf(),
        m.generation + 2 <= u64::MAX,
        fitted(m),
    ensures
        fitted(respond(m, event)),
{
    lemma_events_kept(m, event);
    reveal(kept_if);
}

/// Whatever happens, the toolbar shows the number of a page that exists.
pub proof fn law_events_keep_the_page_number_in_range(m: Model, event: Event)
    requires
        m.wf(),
        m.generation + 2 <= u64::MAX,
        toolbar_in_range(m),
    ensures
        toolbar_in_range(respond(m, event)),
{
    lemma_events_kept(m, event);
    reveal(kept_if);
}

/// Whatever happens, paged mode has the current row on show, with the images that its
/// pages have. Left out is that the list is scrolled, which paged mode does not show.
pub proof fn law_events_keep_the_row_on_show(m: Model, event: Event)
    requires
        m.wf(),
        m.generation + 2 <= u64::MAX,
        paged_mode_shows_the_row(m),
        event is Scrolled ==> m.continuous,
    ensures
        paged_mode_shows_the_row(respond(m, event)),
{
    lemma_events_kept(m, event);
    reveal(kept_if);
}

/// A fresh viewer shows the first page as the current one; a document without pages
/// has none.
pub proof fn law_a_new_viewer_shows_the_first_page(pages: Seq<PageSize>, scale_factor: int)
    requires
        pages.len() <= i32::MAX,
    ensures
        toolbar_in_range(Model::new(pages, scale_factor)),
        paged_mode_shows_the_row(Model::new(pages, scale_factor)),
        Model::new(pages, scale_factor).current_row == 0,
        Model::new(pages, scale_factor).scroll == 0,
{
    let m = Model::new(pages, scale_factor);
    lemma_page_number_in_range(m);
    assert(m.window.current_page == m.page_number());
}

/// Whatever happens, nothing that was asked for is taken back; only pages of the
/// document are asked for; and the view never goes back to an older epoch, so that
/// what is asked for is never older than what was asked for before.
pub proof fn law_events_only_move_on(m: Model, event: Event)
    requires
        m.wf(),
        m.generation + 2 <= u64::MAX,
    ensures
        moves_on(m, respond(m, event)),
{
    lemma_events_kept(m, event);
    reveal(kept_if);
}

/// A report of the window or of a worker is one step of the viewer.
pub proof fn law_reports_are_one_step(m: Model, event: Event)
    ensures
        match event {
            Event::RequestRenderRow { row } => respond(m, event) == m.request_render_row(row as int),
            Event::PageRendered { page, image } => respond(m, event) == m.on_page_rendered(page as int, image),
            Event::RequestThumbnailRow { row } => respond(m, event) == m.request_thumbnail_row(row as int),
            Event::ThumbnailRendered { page, image } => respond(m, event) == m.on_thumbnail_rendered(
                page as int,
                image,
            ),
            _ => true,
        },
{
    reveal(after_report);
}

/// A change of the zoom or of the viewport is one step of the viewer.
pub proof fn law_scaling_is_one_step(m: Model, event: Event)
    ensures
        match event {
            Event::ViewportResized { width, height, scale_factor } => respond(m, event) == m.set_viewport(
                width as int,
                height as int,
                scale_factor as int,
            ),
            Event::ZoomIn => respond(m, event) == m.zoom_in(),
            Event::ZoomOut => respond(m, event) == m.zoom_out(),
            Event::ZoomReset => respond(m, event) == m.zoom_reset(),
            Event::FitWidth => respond(m, event) == m.fit_to(FitMode::Width),
            Event::FitPage => respond(m, event) == m.fit_to(FitMode::Page),
            _ => true,
        },
{
    reveal(after_scaling);
}

/// A change of the reading or spread mode is one step of the viewer.
pub proof fn law_switching_is_one_step(m: Model, event: Event)
    ensures
        match event {
            Event::ToggleContinuous => respond(m, event) == m.set_continuous(!m.continuous),
            Event::SetContinuous { continuous } => respond(m, event) == m.set_continuous(continuous),
            Event::SetSpread { mode } => respond(m, event) == m.set_spread(mode as int),
            _ => true,
        },
{
    reveal(after_switching);
}

/// A jump is one step of the viewer.
pub proof fn law_jumping_is_one_step(m: Model, event: Event)
    ensures
        match event {
            Event::GoToPage { text } => respond(m, event) == m.go_to_page(text@),
            Event::GoToPageIndex { page } => respond(m, event) == m.nav_to_page(page as int),
            Event::NavPage { dir } => respond(m, event) == m.nav_page(dir as int),
            Event::NavHome => respond(m, event) == m.nav_home(),
            Event::NavEnd => respond(m, event) == m.nav_end(),
            _ => true,
        },
{
    reveal(after_jump);
}

/// Scrolling is one step of the viewer.
pub proof fn law_scrolling_is_one_step(m: Model, event: Event)
    ensures
        match event {
            Event::Scrolled { offset } => respond(m, event) == m.scrolled(offset as int),
            Event::NavLine { dir } => respond(m, event) == m.nav_line(dir as int),
            Event::PagedScroll { delta_x, delta_y, shift } => respond(m, event) == m.paged_scroll(
                delta_x as int,
                delta_y as int,
                shift,
            ),
            _ => true,
        },
{
    reveal(after_scrolling);
}

/// Toggling the sidebar twice restores it, and everything else is as it was, with or
/// without an open document.
pub proof fn law_toggling_the_sidebar_twice_restores_it(
    before: App,
    once: App,
    twice: App,
    first: Option<usize>,
    second: Option<usize>,
)
    requires
        handled(before, Event::ToggleSidebar, once, first),
        handled(once, Event::ToggleSidebar, twice, second),
    ensures
        once.sidebar_open != before.sidebar_open,
        twice.sidebar_open == before.sidebar_open,
        twice.title == before.title,
        twice.outline == before.outline,
        twice.viewport == before.viewport,
        twice.viewer is Some <==> before.viewer is Some,
        before.viewer matches Some(viewer) ==> twice.viewer.unwrap()@ == viewer@,
{
}

/// Without an open document an event changes nothing but the sidebar and what is known
/// of the window's size.
pub proof fn law_without_a_document_nothing_happens(
    before: App,
    event: Event,
    after: App,
    dropped: Option<usize>,
)
    requires
        before.viewer is None,
        handled(before, event, after, dropped),
    ensures
        after.viewer is None,
        dropped is None,
        !(event is ToggleSidebar) && !(event is ViewportResized) ==> after == before,
{
}

}
