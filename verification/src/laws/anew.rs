//! When the view is rendered anew: after a new zoom, a fit, and a new display.

use vstd::prelude::*;

use super::requests::{law_no_visible_row_is_left_out, row_of};
use super::shown::{asks_for_row, lemma_asks_for_current_row};
use crate::geometry::{clamp, MAX_ZOOM, MIN_ZOOM};
use crate::layout::{law_rows_keep_page_order, Spread};
use crate::model::{Command, FitMode, Model};
use crate::render::RenderRequest;

verus! {

/// The view is one epoch newer, and rendered in it.
pub open spec fn rendered_anew(m: Model, after: Model) -> bool {
    &&& after.generation == m.generation + 1
    &&& rendered_since(m, after)
}

/// The newest epoch is announced, and every page on screen is asked for in it, at high
/// priority and at the current scale, whether it has an image or not, among the commands
/// that came in since `m`.
pub open spec fn rendered_since(m: Model, after: Model) -> bool {
    let new = after.commands.skip(m.commands.len() as int);
    &&& new.contains(Command::Advance(after.generation as u64))
    &&& forall|page: int|
        0 <= page < m.pages.len() && on_screen_now(after, #[trigger] row_of(after, page))
            ==> new.contains(
            Command::Render(
                RenderRequest {
                    page: page as i32,
                    scale: after.scale() as u64,
                    generation: after.generation as u64,
                    prefetch: false,
                },
            ),
        )
}

/// A row is on screen: in continuous mode one that is in view, in paged mode the current
/// one.
pub open spec fn on_screen_now(m: Model, row: int) -> bool {
    if m.continuous {
        m.top_row() <= row <= m.bottom_row()
    } else {
        row == m.current_row
    }
}

/// Asking for the view has it rendered anew.
proof fn lemma_rerendered(m: Model)
    requires
        m.pages.len() <= i32::MAX,
        0 <= m.current_row <= m.last_row(),
    ensures
        rendered_anew(m, m.rerender_view()),
{
    let after = m.rerender_view();
    let new = after.commands.skip(m.commands.len() as int);
    law_rows_keep_page_order(m.pages.len() as int, m.spread);
    if m.continuous {
        assert(new[0] == Command::Advance(after.generation as u64));
        assert forall|page: int|
            0 <= page < m.pages.len() && on_screen_now(
                after,
                #[trigger] row_of(after, page),
            ) implies new.contains(
            Command::Render(
                RenderRequest {
                    page: page as i32,
                    scale: after.scale() as u64,
                    generation: after.generation as u64,
                    prefetch: false,
                },
            ),
        ) by {
            assert(m.top_row() == after.top_row() && m.bottom_row() == after.bottom_row());
            law_no_visible_row_is_left_out(m, true, page);
        }
    } else if m.pages.len() > 0 {
        lemma_asks_for_current_row(m, m);
        assert(asks_for_row(m, after, m.current_row));
    } else {
        assert(new[0] == Command::Advance(after.generation as u64));
    }
}

/// What comes after the view was asked for takes nothing back.
proof fn lemma_still_anew(before: Model, m: Model, asked: Model, after: Model)
    requires
        rendered_since(m, asked),
        before.commands.len() <= m.commands.len(),
        before.pages == m.pages,
        m.commands.len() <= asked.commands.len() <= after.commands.len(),
        forall|i: int|
            0 <= i < asked.commands.len() ==> #[trigger] after.commands[i] == asked.commands[i],
        after.scale() == asked.scale(),
        after.generation == asked.generation,
        after.spread == asked.spread,
        after.continuous == asked.continuous,
        after.top_row() == asked.top_row(),
        after.bottom_row() == asked.bottom_row(),
        after.current_row == asked.current_row,
    ensures
        rendered_since(before, after),
{
    let count = m.commands.len() as int;
    let skipped = before.commands.len() as int;
    let new = asked.commands.skip(count);
    let later = after.commands.skip(skipped);
    assert forall|command: Command| #[trigger] new.contains(command) implies later.contains(
        command,
    ) by {
        let i = choose|i: int| 0 <= i < new.len() && new[i] == command;
        assert(asked.commands[count + i] == command);
        assert(later[count - skipped + i] == command);
    }
    assert(new.contains(Command::Advance(after.generation as u64)));
    assert forall|page: int|
        0 <= page < before.pages.len() && on_screen_now(
            after,
            #[trigger] row_of(after, page),
        ) implies later.contains(
        Command::Render(
            RenderRequest {
                page: page as i32,
                scale: after.scale() as u64,
                generation: after.generation as u64,
                prefetch: false,
            },
        ),
    ) by {
        assert(row_of(asked, page) == row_of(after, page));
        assert(on_screen_now(asked, row_of(asked, page)));
    }
}

/// A zoom has the view rendered anew.
proof fn lemma_zoomed_anew(m: Model, zoom: int)
    requires
        m.pages.len() <= i32::MAX,
        0 <= m.current_row <= m.last_row(),
    ensures
        rendered_anew(m, m.with_zoom(zoom)),
{
    let zoomed = Model {
        zoom: clamp(zoom, MIN_ZOOM as int, MAX_ZOOM as int),
        ..m
    }.apply_density();
    lemma_rerendered(zoomed);
    lemma_still_anew(m, zoomed, zoomed.rerender_view(), m.with_zoom(zoom));
}

/// A new zoom has the view rendered anew.
pub proof fn law_a_new_zoom_renders_anew(m: Model, zoom: int)
    requires
        m.wf(),
    ensures
        rendered_anew(m, m.set_zoom(zoom)),
{
    let free = Model { fit: FitMode::Free, ..m };
    lemma_zoomed_anew(free, zoom);
    lemma_still_anew(m, free, m.set_zoom(zoom), m.set_zoom(zoom));
}

/// A fit has the view rendered anew, where there is something to fit; where there is
/// not, only the choice of the fit is kept.
pub proof fn law_a_fit_renders_anew(m: Model, fit: FitMode)
    requires
        m.wf(),
        fit != FitMode::Free,
    ensures
        m.view is Some && m.ref_w() > 0 && m.ref_h() > 0 ==> rendered_anew(m, m.fit_to(fit)),
        m.view is None || m.ref_w() <= 0 || m.ref_h() <= 0 ==> m.fit_to(fit) == (Model { fit, ..m }),
{
    let fitting = Model { fit, ..m };
    if let Some(zoom) = fitting.fitting_zoom() {
        lemma_zoomed_anew(fitting, zoom);
        lemma_still_anew(m, fitting, m.fit_to(fit), m.fit_to(fit));
    }
}

/// A viewport that is reported has the view rendered anew where a fit is active and
/// there is something to fit, and, where the reader zooms freely, if the display's scale
/// factor changed by more than a thousandth.
pub proof fn law_a_new_display_renders_anew(m: Model, width: int, height: int, scale_factor: int)
    requires
        m.wf(),
    ensures
        ({
            let after = m.set_viewport(width, height, scale_factor);
            let change = scale_factor - m.scale_factor;
            &&& m.fit != FitMode::Free && m.ref_w() > 0 && m.ref_h() > 0 ==> rendered_anew(m, after)
            &&& m.fit == FitMode::Free && !(-1_000 <= change <= 1_000) ==> rendered_anew(m, after)
        }),
{
    let after = m.set_viewport(width, height, scale_factor);
    let sized = Model { view: Some((width, height)), scale_factor, ..m };
    if m.fit != FitMode::Free {
        if let Some(zoom) = sized.fitting_zoom() {
            lemma_zoomed_anew(sized, zoom);
            lemma_still_anew(m, sized, sized.with_zoom(zoom), after);
        }
    } else if !(-1_000 <= scale_factor - m.scale_factor <= 1_000) {
        lemma_rerendered(sized);
        lemma_still_anew(m, sized, sized.rerender_view(), after);
    }
}

/// Returning to continuous mode with an active fit has the list rendered anew. Without
/// one it is only told to move, and the status line is composed anew.
pub proof fn law_returning_to_the_list_renders_it(m: Model)
    requires
        m.wf(),
        !m.continuous,
    ensures
        ({
            let after = m.set_continuous(true);
            &&& m.fit != FitMode::Free && m.view is Some && m.ref_w() > 0 && m.ref_h() > 0
                ==> rendered_anew(m, after)
            &&& m.fit == FitMode::Free ==> after.generation == m.generation && after.commands
                == m.commands.push(Command::ScrollTo(after.window.scroll_y as i128)).push(
                Command::ShowStatus,
            )
        }),
{
    let after = m.set_continuous(true);
    let entered = m.enter_continuous();
    if m.fit != FitMode::Free {
        if let Some(zoom) = entered.fitting_zoom() {
            lemma_zoomed_anew(entered, zoom);
            lemma_still_anew(m, entered, entered.with_zoom(zoom), after);
        }
    }
}

/// Entering paged mode has the row on show rendered.
pub proof fn law_entering_paged_mode_renders_the_row(m: Model)
    requires
        m.wf(),
        m.continuous,
        m.pages.len() > 0,
    ensures
        rendered_since(m, m.set_continuous(false)),
        m.fit == FitMode::Free ==> rendered_anew(m, m.set_continuous(false)),
{
    law_rows_keep_page_order(m.pages.len() as int, m.spread);
    let after = m.set_continuous(false);
    let shown = Model { paged_x: 0, paged_y: 0, ..m.in_mode(false) }.refresh_current_row();
    let entered = shown.request_current_row();
    assert(entered == m.enter_paged());
    assert(entered == shown.rerender_view());
    lemma_settled(m, shown, entered);
    lemma_still_anew(m, m, entered.reapply_scale(), after);
}

/// Once the view was asked for, applying the scale leaves it asked for.
proof fn lemma_settled(before: Model, shown: Model, entered: Model)
    requires
        entered == shown.rerender_view(),
        shown.pages.len() <= i32::MAX,
        0 <= shown.current_row <= shown.last_row(),
        before.pages == shown.pages,
        before.commands.len() <= shown.commands.len(),
    ensures
        rendered_since(before, entered.reapply_scale()),
        entered.reapply_scale().commands.len() >= entered.commands.len(),
{
    let settled = entered.reapply_scale();
    lemma_rerendered(shown);
    match entered.fitting_zoom() {
        Some(zoom) => {
            lemma_zoomed_anew(entered, zoom);
            lemma_still_anew(before, entered, settled, settled);
        },
        None => {
            lemma_still_anew(before, shown, entered, settled);
        },
    }
}

/// A new spread mode has the row on show rendered in paged mode; and, where a fit is
/// active, the list in continuous mode. Without one nothing is asked for there: rows
/// report when they come into view.
pub proof fn law_a_new_spread_renders_what_is_on_show(m: Model, mode: int)
    requires
        m.wf(),
        m.pages.len() > 0,
    ensures
        ({
            let after = m.set_spread(mode);
            &&& !m.continuous ==> rendered_since(m, after)
            &&& m.continuous && m.fit != FitMode::Free && after.view is Some && after.ref_w() > 0
                && after.ref_h() > 0 ==> rendered_anew(m, after)
            &&& m.continuous && m.fit == FitMode::Free ==> after.generation == m.generation
                && after.commands == m.commands.push(Command::ShowStatus)
        }),
{
    let spread = if mode == 1 {
        Spread::Odd
    } else if mode == 2 {
        Spread::Even
    } else {
        Spread::Single
    };
    lemma_laid_out(m, spread);
    lemma_finished(m, m.build_layout(spread));
}

/// What the rows of a spread mode leave to do: in paged mode the row on show was asked
/// for.
proof fn lemma_laid_out(m: Model, spread: Spread)
    requires
        m.wf(),
        m.pages.len() > 0,
    ensures
        ({
            let after = m.build_layout(spread);
            &&& after.pages == m.pages
            &&& after.view == m.view
            &&& after.fit == m.fit
            &&& after.continuous == m.continuous
            &&& 0 <= after.current_row <= after.last_row()
            &&& m.continuous ==> after.commands == m.commands && after.generation == m.generation
            &&& !m.continuous ==> after.commands.len() >= m.commands.len() && rendered_since(
                m,
                after,
            )
        }),
{
    law_rows_keep_page_order(m.pages.len() as int, spread);
    let shown = m.laid_out(spread).refresh_current_row();
    if !m.continuous {
        lemma_rerendered(shown);
        lemma_still_anew(m, shown, shown.rerender_view(), m.build_layout(spread));
    }
}

/// Applying the scale and composing the status line anew, last of all.
proof fn lemma_finished(before: Model, m: Model)
    requires
        m.pages.len() <= i32::MAX,
        0 <= m.current_row <= m.last_row(),
        before.pages == m.pages,
        before.commands.len() <= m.commands.len(),
    ensures
        ({
            let after = m.reapply_scale().update_status().update_current_page();
            &&& m.fit != FitMode::Free && m.view is Some && after.ref_w() > 0 && after.ref_h() > 0
                ==> rendered_since(before, after) && after.generation == m.generation + 1
            &&& m.fit == FitMode::Free ==> after.generation == m.generation && after.commands
                == m.commands.push(Command::ShowStatus)
            &&& rendered_since(before, m) ==> rendered_since(before, after)
            &&& after.fit == m.fit
            &&& after.view == m.view
            &&& after.continuous == m.continuous
        }),
{
    let after = m.reapply_scale().update_status().update_current_page();
    match m.fitting_zoom() {
        Some(zoom) => {
            lemma_zoomed_anew(m, zoom);
            lemma_still_anew(before, m, m.with_zoom(zoom), after);
        },
        None => {
            if rendered_since(before, m) {
                lemma_still_anew(before, before, m, after);
            }
        },
    }
}

/// Fitting again to the chosen fit would not change the zoom.
pub open spec fn fits_already(m: Model) -> bool {
    m.fit != FitMode::Free ==> m.fit_to(m.fit).zoom == m.zoom
}

/// A fit is kept up: after a new size of the window, a change of the reading mode and a
/// new spread, fitting again would not change the zoom.
pub proof fn law_a_fit_is_kept_up(
    m: Model,
    width: int,
    height: int,
    scale_factor: int,
    continuous: bool,
)
    requires
        m.continuous != continuous,
    ensures
        fits_already(m.set_viewport(width, height, scale_factor)),
        fits_already(m.set_continuous(continuous)),
{
    let sized = Model { view: Some((width, height)), scale_factor, ..m };
    lemma_fits_already(sized, m.set_viewport(width, height, scale_factor));
    let entered = if continuous {
        m.enter_continuous()
    } else {
        m.enter_paged()
    };
    lemma_fits_already(entered, m.set_continuous(continuous));
}

/// A fit is kept up as pages are grouped anew.
pub proof fn law_a_new_spread_keeps_the_fit_up(m: Model, mode: int)
    ensures
        fits_already(m.set_spread(mode)),
{
    let after = m.set_spread(mode);
    lemma_fits_already(m.build_layout(after.spread), after);
}

proof fn lemma_fits_already(m: Model, after: Model)
    requires
        after.pages == m.pages,
        after.spread == m.spread,
        after.view == m.view,
        after.fit == m.fit,
        m.fit != FitMode::Free ==> after.zoom == m.apply_fit().zoom,
    ensures
        fits_already(after),
{
    assert(after.specs() == m.specs());
    assert(after.fitting_zoom() == m.fitting_zoom());
}

/// Where the reader zooms freely, or there is nothing to fit, the zoom stays through all
/// that is not zooming.
pub proof fn law_without_a_fit_the_zoom_stays_through_it(
    m: Model,
    width: int,
    height: int,
    scale_factor: int,
    continuous: bool,
    mode: int,
)
    ensures
        m.fit == FitMode::Free || m.ref_w() <= 0 || m.ref_h() <= 0 ==> m.set_viewport(
            width,
            height,
            scale_factor,
        ).zoom == m.zoom,
        m.fit == FitMode::Free || m.view is None || m.ref_w() <= 0 || m.ref_h() <= 0
            ==> m.set_continuous(continuous).zoom == m.zoom,
        m.fit == FitMode::Free || m.view is None ==> m.set_spread(mode).zoom == m.zoom,
{
}

}
