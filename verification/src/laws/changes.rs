//! What each operation changes, and what it leaves alone.

use vstd::prelude::*;

use super::{lemma_rows, lemma_tallest};
use crate::geometry::{MAX_ZOOM, MIN_ZOOM};
use crate::layout::{law_rows_keep_page_order, PageSize, Spread};
use crate::model::{Command, FitMode, Model, WindowModel};
use crate::render::RenderRequest;
use crate::text::decimal;

verus! {

/// Nothing but where paged mode's content stands, what is asked for, and the page
/// number differs in what is published and kept of paged mode.
pub open spec fn only_turned(m: Model, after: Model) -> bool {
    after == (Model {
        current_row: after.current_row,
        paged_x: after.paged_x,
        paged_y: after.paged_y,
        generation: after.generation,
        commands: after.commands,
        window: WindowModel {
            current_page: after.window.current_page,
            current_row_content: after.window.current_row_content,
            paged_offset_x: after.window.paged_offset_x,
            paged_offset_y: after.window.paged_offset_y,
            paged_content_w: after.window.paged_content_w,
            paged_content_h: after.window.paged_content_h,
            ..m.window
        },
        ..m
    })
}

/// The wheel in paged mode changes nothing but which page is on show and where it
/// stands.
pub proof fn law_the_wheel_only_turns_pages(m: Model, delta_x: int, delta_y: int, shift: bool)
    ensures
        only_turned(m, m.paged_scroll(delta_x, delta_y, shift)),
{
}

/// In paged mode a jump changes nothing but which page is on show and where it stands,
/// and where the list will be.
pub proof fn law_a_paged_jump_only_turns_pages(m: Model, row: int)
    requires
        !m.continuous,
    ensures
        only_turned(Model { scroll: m.scroll_to_row(row).scroll, ..m }, m.scroll_to_row(row)),
        only_turned(Model { scroll: m.nav_end().scroll, ..m }, m.nav_end()),
{
}

/// Nothing but the position of the list, what is asked for, and the page number
/// differs.
pub open spec fn only_scrolled(m: Model, after: Model) -> bool {
    after == (Model {
        current_row: after.current_row,
        scroll: after.scroll,
        generation: after.generation,
        commands: after.commands,
        window: WindowModel {
            current_page: after.window.current_page,
            scroll_y: after.window.scroll_y,
            ..m.window
        },
        ..m
    })
}

/// In continuous mode moving about changes nothing but the position of the list.
/// Following the list as the reader scrolls it does not move it.
pub proof fn law_moving_in_the_list_only_scrolls(m: Model, row: int, delta: int)
    requires
        m.continuous,
    ensures
        only_scrolled(m, m.scroll_to_row(row)),
        only_scrolled(m, m.nav_end()),
        only_scrolled(m, m.scroll_by(delta)),
        only_scrolled(m, m.scrolled(delta)),
        m.scrolled(delta).window.scroll_y == m.window.scroll_y,
        m.scroll_by(delta).current_row == m.current_row,
{
}

/// Following the list takes the position that it reports; above the top is the top.
pub proof fn law_the_list_is_where_it_says(m: Model, offset: int)
    requires
        m.specs().len() > 0,
    ensures
        offset >= 0 ==> m.scrolled(offset).scroll == offset,
        offset <= 0 ==> m.scrolled(offset).scroll == 0,
{
}

/// Whatever moves the list says so first, to where it is published to be, which is as
/// far up as the view is down: a jump to a row, End, and an arrow key.
pub proof fn law_the_list_is_told_to_move(m: Model, row: int, delta: int)
    requires
        m.wf(),
        m.continuous,
        0 <= row < m.specs().len(),
    ensures
        ({
            let count = m.commands.len() as int;
            let jumped = m.scroll_to_row(row);
            let ended = m.nav_end();
            let moved = m.scroll_by(delta);
            &&& jumped.window.scroll_y == -jumped.scroll == -(row * m.pitch())
            &&& jumped.commands[count] == Command::ScrollTo(jumped.window.scroll_y as i128)
            &&& ended.window.scroll_y == -ended.scroll
            &&& ended.commands[count] == Command::ScrollTo(ended.window.scroll_y as i128)
            &&& moved.window.scroll_y == -moved.scroll
            &&& moved.commands == m.commands.push(
                Command::ScrollTo(moved.window.scroll_y as i128),
            )
        }),
{
    lemma_rows(m);
}

/// Returning to continuous mode tells the list to move, before anything else.
pub proof fn law_returning_to_the_list_moves_it(m: Model)
    requires
        !m.continuous,
    ensures
        ({
            let after = m.set_continuous(true);
            &&& after.window.scroll_y == -after.scroll
            &&& after.commands.len() > m.commands.len()
            &&& after.commands[m.commands.len() as int] == Command::ScrollTo(
                after.window.scroll_y as i128,
            )
        }),
{
    let entered = m.enter_continuous();
    let settled = entered.reapply_scale();
    lemma_settling_appends(entered);
    assert(settled.commands[m.commands.len() as int] == entered.commands[m.commands.len() as int]);
}

/// Applying the scale takes no command back and moves nothing.
proof fn lemma_settling_appends(m: Model)
    ensures
        ({
            let after = m.reapply_scale();
            &&& after.commands.len() >= m.commands.len()
            &&& forall|i: int|
                0 <= i < m.commands.len() ==> #[trigger] after.commands[i] == m.commands[i]
            &&& after.window.scroll_y == m.window.scroll_y
            &&& after.scroll == m.scroll
        }),
{
}

/// Nothing but the scale differs: the zoom, the density, and where paged mode's content
/// stands; and what is asked for, and the status line.
pub open spec fn only_scaled(m: Model, after: Model) -> bool {
    after == (Model {
        zoom: after.zoom,
        fit: after.fit,
        paged_x: after.paged_x,
        paged_y: after.paged_y,
        generation: after.generation,
        commands: after.commands,
        window: WindowModel {
            density: after.window.density,
            paged_offset_x: after.window.paged_offset_x,
            paged_offset_y: after.window.paged_offset_y,
            paged_content_w: after.window.paged_content_w,
            paged_content_h: after.window.paged_content_h,
            status: after.window.status,
            ..m.window
        },
        ..m
    })
}

/// Zooming and fitting change nothing but the scale: the reader stays where they are,
/// and everything that is rendered stays.
pub proof fn law_zooming_only_scales(m: Model, zoom: int, fit: FitMode)
    ensures
        only_scaled(m, m.set_zoom(zoom)),
        m.set_zoom(zoom).fit == FitMode::Free,
        only_scaled(m, m.fit_to(fit)),
        m.fit_to(fit).fit == fit,
{
}

/// Zooming in makes everything larger by a quarter, and zooming out smaller by a fifth,
/// rounded down, within the limits of 10% and 800%.
pub proof fn law_a_zoom_step_is_a_quarter(m: Model)
    requires
        m.wf(),
    ensures
        ({
            let closer = m.zoom_in().zoom;
            let further = m.zoom_out().zoom;
            &&& 5 * m.zoom < 4 * 8_000_001 ==> 4 * closer <= 5 * m.zoom < 4 * (closer + 1)
            &&& 5 * m.zoom >= 4 * 8_000_000 ==> closer == 8_000_000
            &&& 4 * m.zoom >= 5 * 100_000 ==> 5 * further <= 4 * m.zoom < 5 * (further + 1)
            &&& 4 * m.zoom <= 5 * 100_000 ==> further == 100_000
            &&& m.zoom_reset().zoom == 1_000_000
            &&& MIN_ZOOM == 100_000 && MAX_ZOOM == 8_000_000
        }),
{
}

/// A viewport that is reported is taken over, with the display's scale factor, and
/// nothing else changes but the scale. Where the reader zooms freely the zoom stays,
/// and only a scale factor that differs by more than a thousandth has the view
/// rendered anew.
pub proof fn law_a_viewport_is_taken_over(m: Model, width: int, height: int, scale_factor: int)
    ensures
        ({
            let after = m.set_viewport(width, height, scale_factor);
            let change = scale_factor - m.scale_factor;
            &&& after.view == Some((width, height))
            &&& after.scale_factor == scale_factor
            &&& after.fit == m.fit
            &&& only_scaled(Model { view: after.view, scale_factor, ..m }, after)
            &&& m.fit == FitMode::Free ==> after.zoom == m.zoom && after.window.status
                == m.window.status
            &&& m.fit == FitMode::Free && -1_000 <= change <= 1_000 ==> after.commands
                == m.commands && after.generation == m.generation
            &&& m.fit == FitMode::Free && !(-1_000 <= change <= 1_000) ==> after.generation
                == m.generation + 1
        }),
{
}

/// A change of the reading mode leaves alone what is rendered, how pages are grouped,
/// and how the reader wants them fitted. Paged mode leaves the list where it is.
pub proof fn law_switching_only_changes_the_mode(m: Model, continuous: bool)
    ensures
        ({
            let after = m.set_continuous(continuous);
            &&& after.pages == m.pages
            &&& after.scale_factor == m.scale_factor
            &&& after.view == m.view
            &&& after.fit == m.fit
            &&& after.retained == m.retained
            &&& after.spread == m.spread
            &&& after.current_row == m.current_row
            &&& after.rows == m.rows
            &&& after.thumb_images == m.thumb_images
            &&& after.thumb_rows == m.thumb_rows
            &&& after.window.page_count == m.window.page_count
            &&& after.window.spread_mode == m.window.spread_mode
            &&& after.window.row_height_pt == m.window.row_height_pt
            &&& !continuous ==> after.scroll == m.scroll && after.window.scroll_y
                == m.window.scroll_y
            &&& m.continuous == continuous ==> after == m
            &&& m.fit == FitMode::Free ==> after.zoom == m.zoom
        }),
{
}

/// A change of the spread mode leaves alone where the list is, the thumbnails, the
/// reading mode, and how the reader wants pages fitted.
pub proof fn law_a_new_spread_only_regroups(m: Model, mode: int)
    ensures
        ({
            let after = m.set_spread(mode);
            &&& after.pages == m.pages
            &&& after.scale_factor == m.scale_factor
            &&& after.view == m.view
            &&& after.fit == m.fit
            &&& after.continuous == m.continuous
            &&& after.scroll == m.scroll
            &&& after.thumb_images == m.thumb_images
            &&& after.window.page_count == m.window.page_count
            &&& after.window.continuous == m.window.continuous
            &&& after.window.scroll_y == m.window.scroll_y
            &&& m.fit == FitMode::Free ==> after.zoom == m.zoom
        }),
{
}

/// A rendered page changes nothing but rows, the images kept, and what is on show; a
/// rendered thumbnail nothing but thumbnails.
pub proof fn law_images_only_change_what_shows_them(m: Model, page: int, image: u64)
    ensures
        ({
            let after = m.on_page_rendered(page, image);
            after == (Model {
                retained: after.retained,
                rows: after.rows,
                window: WindowModel {
                    current_row_content: after.window.current_row_content,
                    ..m.window
                },
                ..m
            })
        }),
        m.continuous ==> m.on_page_rendered(page, image).window == m.window,
        ({
            let after = m.on_thumbnail_rendered(page, image);
            after == (Model {
                thumb_images: after.thumb_images,
                thumb_rows: after.thumb_rows,
                ..m
            })
        }),
        0 <= page < m.pages.len() ==> m.on_thumbnail_rendered(page, image).thumb_images
            == m.thumb_images.update(page, Some(image)),
{
}

/// The pages that a row holds, from left to right, are asked for when it comes into
/// view, and nothing else: to be rendered at high priority in the current view, or as
/// thumbnails. A negative row counts as the first one; past the end there is nothing
/// to ask for.
pub proof fn law_a_row_that_comes_into_view_is_asked_for(m: Model, row: int, index: int)
    requires
        m.wf(),
        index == if row < 0 { 0 } else { row },
    ensures
        ({
            let drawn = m.request_render_row(row);
            let thumbs = m.request_thumbnail_row(row);
            &&& drawn == (Model { commands: drawn.commands, ..m })
            &&& thumbs == (Model { commands: thumbs.commands, ..m })
            &&& index >= m.specs().len() ==> drawn.commands == m.commands && thumbs.commands
                == m.commands
            &&& index < m.specs().len() ==> {
                let left = m.specs()[index].left;
                match m.specs()[index].right {
                    None => {
                        &&& drawn.commands == m.commands.push(asked(m, left as int))
                        &&& thumbs.commands == m.commands.push(Command::Thumbnail(left as i32))
                    },
                    Some(right) => {
                        &&& drawn.commands == m.commands.push(asked(m, left as int)).push(
                            asked(m, right as int),
                        )
                        &&& thumbs.commands == m.commands.push(
                            Command::Thumbnail(left as i32),
                        ).push(Command::Thumbnail(right as i32))
                    },
                }
            }
        }),
{
    let drawn = m.request_render_row(row);
    if index < m.specs().len() {
        let left = m.specs()[index].left;
        match m.specs()[index].right {
            None => {
                assert(drawn.commands =~= m.commands.push(asked(m, left as int)));
            },
            Some(right) => {
                assert(drawn.commands =~= m.commands.push(asked(m, left as int)).push(
                    asked(m, right as int),
                ));
            },
        }
    } else {
        assert(drawn.commands =~= m.commands);
    }
}

/// A page asked for at high priority in the current view.
pub open spec fn asked(m: Model, page: int) -> Command {
    Command::Render(
        RenderRequest {
            page: page as i32,
            scale: m.scale() as u64,
            generation: m.generation as u64,
            prefetch: false,
        },
    )
}

/// The status line says how many pages there are, the zoom in percent, the reading
/// mode, in paged mode with the current row, counted from one, of how many, and the
/// spread mode. The percentage is rounded to the nearest.
pub open spec fn status_tells(m: Model, status: Seq<char>) -> bool {
    exists|percent: nat| #[trigger] status_with(m, percent) == status && -5_000 < 10_000 * percent
        - m.zoom <= 5_000
}

/// The status line with a given percentage.
pub open spec fn status_with(m: Model, percent: nat) -> Seq<char> {
    let spread = match m.spread {
        Spread::Single => "single"@,
        Spread::Odd => "odd spread"@,
        Spread::Even => "even spread"@,
    };
    let count = m.specs().len();
    if m.continuous {
        decimal(m.pages.len()) + " pages \u{b7} "@ + decimal(percent) + "% \u{b7} "@
            + "continuous"@ + " \u{b7} "@ + spread
    } else {
        decimal(m.pages.len()) + " pages \u{b7} "@ + decimal(percent) + "% \u{b7} "@ + ("paged "@
            + decimal((m.current_row + 1) as nat) + "/"@ + decimal(
            if count == 0 {
                1
            } else {
                count
            },
        )) + " \u{b7} "@ + spread
    }
}

/// A status line that is composed is right, and told on.
pub proof fn law_the_status_line_is_right(m: Model)
    requires
        m.zoom >= 0,
    ensures
        status_tells(m, m.update_status().window.status),
        m.update_status().commands == m.commands.push(Command::ShowStatus),
{
    let percent = ((m.zoom + 5_000) / 10_000) as nat;
    assert(status_with(m, percent) =~= m.status_text());
}

/// Whether the status line says what is, and was told on last.
pub open spec fn status_is_told(after: Model) -> bool {
    &&& status_tells(after, after.window.status)
    &&& after.commands.len() > 0
    &&& after.commands.last() == Command::ShowStatus
}

/// A new zoom leaves the status line right and told on, and so does a fit, where there is
/// something to fit.
pub proof fn law_the_status_line_follows_the_zoom(m: Model, zoom: int, fit: FitMode)
    ensures
        status_is_told(m.set_zoom(zoom)),
        m.view is Some && m.ref_w() > 0 && m.ref_h() > 0 && fit != FitMode::Free ==> status_is_told(
            m.fit_to(fit),
        ),
{
    lemma_status_after_zoom(Model { fit: FitMode::Free, ..m }, zoom);
    let fitting = Model { fit, ..m };
    if let Some(zoom) = fitting.fitting_zoom() {
        lemma_status_after_zoom(fitting, zoom);
    }
}

proof fn lemma_status_after_zoom(m: Model, zoom: int)
    ensures
        status_is_told(m.with_zoom(zoom)),
{
    let zoomed = Model {
        zoom: crate::geometry::clamp(zoom, MIN_ZOOM as int, MAX_ZOOM as int),
        ..m
    };
    let drawn = zoomed.apply_density().rerender_view();
    law_the_status_line_is_right(drawn);
    lemma_status_same(drawn, m.with_zoom(zoom));
}

/// What the status line depends on.
proof fn lemma_status_same(m: Model, after: Model)
    requires
        status_tells(m, after.window.status),
        after.pages == m.pages,
        after.zoom == m.zoom,
        after.continuous == m.continuous,
        after.current_row == m.current_row,
        after.spread == m.spread,
    ensures
        status_tells(after, after.window.status),
{
    let percent = choose|percent: nat| #[trigger]
        status_with(m, percent) == after.window.status && -5_000 < 10_000 * percent - m.zoom
            <= 5_000;
    assert(status_with(after, percent) == after.window.status);
}

/// A change of the reading mode leaves the status line right and told on.
pub proof fn law_the_status_line_follows_the_mode(m: Model, continuous: bool)
    requires
        m.wf(),
        m.continuous != continuous,
    ensures
        status_is_told(m.set_continuous(continuous)),
{
    let entered = if continuous {
        m.enter_continuous()
    } else {
        m.enter_paged()
    };
    lemma_zoom_not_negative(entered);
    lemma_status_last(entered.reapply_scale());
}

/// Publishing the page number does not touch the status line.
proof fn lemma_status_last(m: Model)
    requires
        m.zoom >= 0,
    ensures
        status_is_told(m.update_status().update_current_page()),
{
    law_the_status_line_is_right(m);
    lemma_status_same(m, m.update_status().update_current_page());
}

proof fn lemma_zoom_not_negative(m: Model)
    requires
        m.zoom >= 0,
    ensures
        m.reapply_scale().zoom >= 0,
{
}

/// A new spread mode leaves the status line right and told on.
pub proof fn law_the_status_line_follows_the_spread(m: Model, mode: int)
    requires
        m.wf(),
    ensures
        status_is_told(m.set_spread(mode)),
{
    let spread = if mode == 1 {
        Spread::Odd
    } else if mode == 2 {
        Spread::Even
    } else {
        Spread::Single
    };
    let laid_out = m.build_layout(spread);
    lemma_layout_keeps_the_zoom(m, spread);
    lemma_zoom_not_negative(laid_out);
    lemma_status_last(laid_out.reapply_scale());
}

proof fn lemma_layout_keeps_the_zoom(m: Model, spread: Spread)
    ensures
        m.build_layout(spread).zoom == m.zoom,
{
}

/// A fresh viewer shows the document from its start, continuously, one page per row, at
/// 100% until the viewport is known and every page can be fitted. Nothing is rendered
/// and nothing is asked for yet but to show the status line.
pub proof fn law_a_new_viewer_starts_at_the_beginning(pages: Seq<PageSize>, scale_factor: int)
    requires
        0 < pages.len() <= i32::MAX,
    ensures
        ({
            let m = Model::new(pages, scale_factor);
            &&& m.pages == pages
            &&& m.zoom == 1_000_000
            &&& m.scale_factor == scale_factor
            &&& m.view is None
            &&& m.fit == FitMode::Page
            &&& m.retained.len() == 0
            &&& m.spread == Spread::Single
            &&& m.continuous
            &&& m.current_row == 0
            &&& m.scroll == 0
            &&& m.generation == 0
            &&& m.rows.len() == pages.len()
            &&& m.thumb_rows.len() == pages.len()
            &&& m.commands == seq![Command::ShowStatus]
            &&& m.window.page_count == pages.len()
            &&& m.window.current_page == 1
            &&& m.window.spread_mode == 0
            &&& m.window.continuous
            &&& m.window.density == 1_333_333
            &&& m.window.scroll_y == 0
            &&& m.window.current_row_content == m.rows[0]
            &&& status_is_told(m)
        }),
{
    let m = Model::new(pages, scale_factor);
    law_rows_keep_page_order(pages.len() as int, Spread::Single);
    assert(m.commands =~= seq![Command::ShowStatus]);
    lemma_new_status(pages, scale_factor);
    lemma_tallest(m.specs(), pages);
    assert(m.ref_h() * m.zoom >= 0) by (nonlinear_arith)
        requires
            m.ref_h() >= 0,
            m.zoom >= 0,
    ;
    assert(m.specs().len() * m.pitch() >= m.pitch()) by (nonlinear_arith)
        requires
            m.specs().len() >= 1,
            m.pitch() >= 0,
    ;
}

proof fn lemma_new_status(pages: Seq<PageSize>, scale_factor: int)
    ensures
        status_is_told(Model::new(pages, scale_factor)),
{
    let m = Model::new(pages, scale_factor);
    law_the_status_line_is_right(m);
    assert(m.window.status == m.update_status().window.status);
    lemma_status_same(m, m);
}

/// Commands are handed over all at once: none is left, and nothing else changes.
pub proof fn law_commands_are_handed_over_once(m: Model)
    ensures
        m.without_commands().commands.len() == 0,
        m.without_commands() == (Model { commands: m.without_commands().commands, ..m }),
        m.without_commands().without_commands() == m.without_commands(),
{
}

/// In paged mode End leaves the list at its top.
pub proof fn law_paged_end_leaves_the_list_at_its_top(m: Model)
    requires
        !m.continuous,
        m.specs().len() > 0,
    ensures
        m.nav_end().scroll == 0,
        m.nav_end().window.scroll_y == m.window.scroll_y,
{
}

/// Home, a page key, a bookmark and a typed number are all jumps to the row that they
/// lead to, also where the reader is there already.
pub proof fn law_every_jump_goes_to_its_row(m: Model, dir: int, page: int, text: Seq<char>)
    requires
        m.wf(),
        m.pages.len() > 0,
    ensures
        m.nav_home() == m.scroll_to_row(0),
        m.nav_page(dir) == m.scroll_to_row(m.nav_page(dir).current_row),
        m.nav_to_page(page) == m.scroll_to_row(m.nav_to_page(page).current_row),
        m.go_to_page(text) == m || m.go_to_page(text) == m.scroll_to_row(
            m.go_to_page(text).current_row,
        ),
{
    lemma_rows(m);
}

/// Zooming in, out and back to 100% is zooming to the zoom that comes out, also where it
/// is the zoom there was.
pub proof fn law_every_zoom_step_zooms(m: Model)
    ensures
        m.zoom_in() == m.set_zoom(m.zoom_in().zoom),
        m.zoom_out() == m.set_zoom(m.zoom_out().zoom),
        m.zoom_reset() == m.set_zoom(m.zoom_reset().zoom),
        m.set_zoom(m.zoom).zoom == m.zoom || !(MIN_ZOOM <= m.zoom <= MAX_ZOOM),
{
}

}
