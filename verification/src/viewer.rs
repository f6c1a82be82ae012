//! View state: layout, zoom, spread/scroll modes, and the row model.
//!
//! Pages are grouped into rows (one page, or two side by side for a spread); only
//! rendered pages carry an image. Zoom is applied through the window's shared
//! `density` property so a zoom change writes one value instead of every row.
//!
//! The viewer draws nothing and waits for nothing. It keeps the properties that
//! the window shows, and collects commands for whoever renders pages and moves
//! the list.

use std::collections::VecDeque;

use vstd::prelude::*;
use vstd::string::*;

use crate::geometry::{
    limit, row_nearest, to_pixels, zoom_to_fit, MAX_EXTENT, MAX_PIXELS, MAX_POINTS, MAX_ZOOM, MICRO,
    MIN_ZOOM, ROW_GAP, SCROLL_STEP, SPREAD_SPACING,
};
use crate::layout::{
    build_row_specs, law_each_page_has_one_place, law_locations_map_pages_back_to_rows,
    lemma_specs_within, location, min, page_locations, page_slot, reference_dims,
    row_specs, specs_within, spread_index, widest, PageSize, RowSpec, Spread,
};
use crate::model::{
    entry, filled_rows, no_images, placeholder, rows_show, slot_shows, with_entry, Command, FitMode,
    Model, PageEntry, PageRow, WindowModel, MAX_RETAINED, PREFETCH_ROWS,
};
use crate::render::RenderRequest;
use crate::text::{append_decimal, parse_integer};

verus! {

/// The properties of the window that the viewer sets.
#[derive(Clone, Copy, Debug, PartialEq, Eq)]
pub struct Window {
    pub page_count: i32,
    /// The 1-based page number shown by the toolbar.
    pub current_page: i32,
    pub spread_mode: i32,
    pub continuous: bool,
    pub density: i128,
    /// The position of the list that was last asked for (negative as you scroll
    /// down).
    pub scroll_y: i128,
    pub row_height_pt: u64,
    pub paged_offset_x: i128,
    pub paged_offset_y: i128,
    pub paged_content_w: i128,
    pub paged_content_h: i128,
    pub current_row_content: PageRow,
}

impl Window {
    /// The properties, together with the status line.
    pub open spec fn model(self, status: Seq<char>) -> WindowModel {
        WindowModel {
            page_count: self.page_count as int,
            current_page: self.current_page as int,
            spread_mode: self.spread_mode as int,
            continuous: self.continuous,
            density: self.density as int,
            scroll_y: self.scroll_y as int,
            row_height_pt: self.row_height_pt as int,
            paged_offset_x: self.paged_offset_x as int,
            paged_offset_y: self.paged_offset_y as int,
            paged_content_w: self.paged_content_w as int,
            paged_content_h: self.paged_content_h as int,
            current_row_content: self.current_row_content,
            status,
        }
    }
}

/// The viewer of one document.
pub struct Viewer {
    pages: Vec<PageSize>,
    zoom: i128,
    scale_factor: u32,
    view: Option<(i64, i64)>,
    fit: FitMode,
    retained: VecDeque<usize>,
    spread: Spread,
    continuous: bool,
    current_row: usize,
    scroll_px: i128,
    paged_scroll_x: i128,
    paged_scroll_y: i128,
    generation: u64,
    specs: Vec<RowSpec>,
    page_loc: Vec<(usize, bool)>,
    ref_w_pt: u128,
    ref_h_pt: u64,
    thumb_images: Vec<Option<u64>>,
    rows: Vec<PageRow>,
    thumb_rows: Vec<PageRow>,
    window: Window,
    status: String,
    commands: Vec<Command>,
}

impl View for Viewer {
    type V = Model;

    closed spec fn view(&self) -> Model {
        Model {
            pages: self.pages@,
            zoom: self.zoom as int,
            scale_factor: self.scale_factor as int,
            view: match self.view {
                Some((width, height)) => Some((width as int, height as int)),
                None => None,
            },
            fit: self.fit,
            retained: self.retained@,
            spread: self.spread,
            continuous: self.continuous,
            current_row: self.current_row as int,
            scroll: self.scroll_px as int,
            paged_x: self.paged_scroll_x as int,
            paged_y: self.paged_scroll_y as int,
            generation: self.generation as int,
            rows: self.rows@,
            thumb_images: self.thumb_images@,
            thumb_rows: self.thumb_rows@,
            window: self.window.model(self.status@),
            commands: self.commands@,
        }
    }
}

impl Viewer {
    /// The viewer is in a valid state.
    pub open spec fn wf(&self) -> bool {
        self.tables_in_step() && self@.wf()
    }

    /// The tables that speed up lookups agree with the layout.
    pub closed spec fn tables_in_step(&self) -> bool {
        &&& self.specs@ == self@.specs()
        &&& self.page_loc@ == Seq::new(
            self.pages@.len(),
            |page: int| location(self.specs@, page),
        )
        &&& self.ref_w_pt == self@.ref_w()
        &&& self.ref_h_pt == self@.ref_h()
    }

    /// The on-screen height of one row (all rows are uniform).
    fn row_height_px(&self) -> (pitch: i128)
        requires
            self.wf(),
        ensures
            pitch == self@.pitch(),
            ROW_GAP <= pitch <= MAX_PIXELS,
    {
        to_pixels(self.ref_h_pt as i128, self.zoom) + ROW_GAP
    }

    /// The largest valid continuous scroll offset.
    fn max_scroll_px(&self) -> (scroll: i128)
        requires
            self.wf(),
        ensures
            scroll == self@.scroll_limit(),
            0 <= scroll <= MAX_EXTENT,
    {
        let pitch: i128 = self.row_height_px();
        let height: i128 = match self.view {
            Some((_, height)) => height as i128,
            None => 0,
        };
        let count: i128 = self.specs.len() as i128;
        proof {
            assert(count * pitch <= i32::MAX * MAX_PIXELS) by (nonlinear_arith)
                requires
                    0 <= count <= i32::MAX,
                    0 <= pitch <= MAX_PIXELS,
            ;
            assert(count * pitch >= 0) by (nonlinear_arith)
                requires
                    0 <= count,
                    0 <= pitch,
            ;
        }
        let bottom: i128 = count * pitch - height;
        if bottom > 0 {
            bottom
        } else {
            0
        }
    }

    /// The scale of render requests.
    fn scale(&self) -> (scale: u64)
        requires
            self.wf(),
        ensures
            scale == self@.scale(),
    {
        let factor: i128 = self.scale_factor as i128;
        proof {
            let zoom = self.zoom as int;
            assert(0 <= zoom * factor <= MAX_ZOOM * u32::MAX) by (nonlinear_arith)
                requires
                    0 <= zoom <= MAX_ZOOM,
                    0 <= factor <= u32::MAX,
            ;
        }
        (4 * (self.zoom * factor) / 3_000_000) as u64
    }

    /// Whether a page's image is kept.
    fn is_retained(&self, page: usize) -> (retained: bool)
        ensures
            retained == self@.retained.contains(page),
    {
        for i in 0..self.retained.len()
            invariant
                forall|k: int| 0 <= k < i ==> self.retained@[k] != page,
        {
            if self.retained[i] == page {
                assert(self.retained@[i as int] == page);
                return true;
            }
        }
        false
    }

    /// Whether a row has a page that is not rendered.
    fn needs(&self, row: usize) -> (needed: bool)
        requires
            self.wf(),
            row < self@.specs().len(),
        ensures
            needed == self@.needs(row as int),
    {
        let spec: RowSpec = self.specs[row];
        if !self.is_retained(spec.left) {
            return true;
        }
        match spec.right {
            Some(right) => !self.is_retained(right),
            None => false,
        }
    }

    fn send(&mut self, page: usize, prefetch: bool)
        requires
            old(self).wf(),
            page < old(self)@.pages.len(),
        ensures
            final(self).wf(),
            final(self)@ == old(self)@.ask(old(self)@.request(page, prefetch)),
    {
        let scale: u64 = self.scale();
        self.commands.push(
            Command::Render(
                RenderRequest {
                    page: page as i32,
                    scale,
                    generation: self.generation,
                    prefetch,
                },
            ),
        );
    }

    /// Sends render requests for a row's pages.
    fn send_row(&mut self, row: usize, prefetch: bool)
        requires
            old(self).wf(),
        ensures
            final(self).wf(),
            final(self)@ == (Model {
                commands: old(self)@.commands + old(self)@.row_requests(row as int, prefetch),
                ..old(self)@
            }),
    {
        if row < self.specs.len() {
            let spec: RowSpec = self.specs[row];
            self.send(spec.left, prefetch);
            if let Some(right) = spec.right {
                self.send(right, prefetch);
            }
        }
        assert(self@.commands =~= old(self)@.commands + old(self)@.row_requests(
            row as int,
            prefetch,
        ));
    }

    /// Sends render requests for the rows from `from` up to but not including
    /// `to`, top to bottom.
    fn send_rows(&mut self, from: i128, to: i128, force: bool, prefetch: bool)
        requires
            old(self).wf(),
            0 <= from,
        ensures
            final(self).wf(),
            final(self)@ == (Model {
                commands: old(self)@.commands + old(self)@.requests(
                    from as int,
                    to as int,
                    force,
                    prefetch,
                ),
                ..old(self)@
            }),
    {
        let ghost base = self@;
        let count: i128 = self.specs.len() as i128;
        let end: i128 = if to < count { to } else { count };
        proof {
            lemma_requests_within(base, from as int, to as int, force, prefetch);
        }
        if from >= end {
            assert(self@.commands =~= base.commands + base.requests(
                from as int,
                end as int,
                force,
                prefetch,
            ));
            return;
        }
        let mut row: usize = from as usize;
        assert(base.commands =~= base.commands + base.requests(
            from as int,
            from as int,
            force,
            prefetch,
        ));
        while row < end as usize
            invariant
                self.wf(),
                base.wf(),
                from <= row <= end <= base.specs().len() <= i32::MAX,
                self@ == (Model {
                    commands: base.commands + base.requests(
                        from as int,
                        row as int,
                        force,
                        prefetch,
                    ),
                    ..base
                }),
            decreases end - row,
        {
            if force || self.needs(row) {
                self.send_row(row, prefetch);
            }
            row += 1;
            assert(self@.commands =~= base.commands + base.requests(
                from as int,
                row as int,
                force,
                prefetch,
            ));
        }
    }

    /// Marks a new view: bumped before issuing a fresh set of render requests so
    /// the worker drops (and aborts in-progress) renders from the previous view.
    fn advance_epoch(&mut self)
        requires
            old(self).wf(),
            old(self)@.generation < u64::MAX,
        ensures
            final(self).wf(),
            final(self)@ == old(self)@.advance_epoch(),
    {
        self.generation += 1;
        self.commands.push(Command::Advance(self.generation));
    }

    /// Requests the visible rows (and a prefetch margin), top-first. On scroll,
    /// pass `force = false` to skip rows already rendered; on zoom (a new scale),
    /// pass `force = true` to re-render everything visible. Also covers eviction:
    /// a page whose image was dropped is asked for again.
    #[verifier::rlimit(20)]
    fn request_visible(&mut self, force: bool)
        requires
            old(self).wf(),
            old(self)@.generation < u64::MAX,
        ensures
            final(self).wf(),
            final(self)@ == old(self)@.request_visible(force),
    {
        self.advance_epoch();
        if !self.continuous || self.specs.len() == 0 {
            return;
        }
        let ghost next = self@;
        let pitch: i128 = self.row_height_px();
        let height: i128 = match self.view {
            Some((_, height)) => height as i128,
            None => 0,
        };
        let top: i128 = self.scroll_px / pitch;
        proof {
            lemma_row_quotients(self.scroll_px as int, height as int, pitch as int);
        }
        let span: i128 = if height <= 0 { 1 } else { (height + pitch - 1) / pitch + 1 };
        let last: i128 = self.specs.len() as i128 - 1;
        let bottom: i128 = if top + span < last { top + span } else { last };
        self.send_rows(top, bottom + 1, force, false);
        // Prefetch a few rows on either side of the visible range.
        let margin: i128 = PREFETCH_ROWS as i128;
        let below: i128 = if bottom + margin < last { bottom + margin } else { last };
        let above: i128 = if top > margin { top - margin } else { 0 };
        let ghost shown = self@;
        self.send_rows(bottom + 1, below + 1, force, true);
        let ghost ahead = self@;
        self.send_rows(above, top, force, true);
        proof {
            lemma_requests_same(next, shown, bottom + 1, below + 1, force, true);
            lemma_requests_same(next, ahead, above as int, top as int, force, true);
        }
    }

    /// Requests the current row (high priority) plus a few neighbors on each
    /// side as prefetch. Used by paged mode and one-shot navigation.
    fn request_current_row(&mut self)
        requires
            old(self).wf(),
            old(self)@.generation < u64::MAX,
        ensures
            final(self).wf(),
            final(self)@ == old(self)@.request_current_row(),
    {
        self.advance_epoch();
        if self.specs.len() == 0 {
            return;
        }
        let ghost next = self@;
        let current: i128 = self.current_row as i128;
        let last: i128 = self.specs.len() as i128 - 1;
        let margin: i128 = PREFETCH_ROWS as i128;
        let start: i128 = if current > margin { current - margin } else { 0 };
        let end: i128 = if current + margin < last { current + margin } else { last };
        self.send_row(self.current_row, false);
        let ghost shown = self@;
        self.send_rows(start, current, false, true);
        let ghost above = self@;
        self.send_rows(current + 1, end + 1, false, true);
        proof {
            lemma_requests_same(next, shown, start as int, current as int, false, true);
            lemma_requests_same(next, above, current + 1, end + 1, false, true);
        }
    }

    /// Re-renders the current view at a new scale (after zoom/fit) or the initial
    /// view on load. Requesting the visible range here - not just already-rendered
    /// pages - is also what renders the first page on startup, when nothing has
    /// been rendered yet.
    fn rerender_view(&mut self)
        requires
            old(self).wf(),
            old(self)@.generation < u64::MAX,
        ensures
            final(self).wf(),
            final(self)@ == old(self)@.rerender_view(),
    {
        if self.continuous {
            self.request_visible(true);
        } else {
            self.request_current_row();
        }
    }

    /// Composes the status line.
    fn update_status(&mut self)
        requires
            old(self).wf(),
        ensures
            final(self).wf(),
            final(self)@ == old(self)@.update_status(),
    {
        let percent: i128 = (self.zoom + 5_000) / 10_000;
        let mut status: String = String::new();
        append_decimal(&mut status, self.pages.len() as u64);
        status.append(" pages \u{b7} ");
        append_decimal(&mut status, percent as u64);
        status.append("% \u{b7} ");
        if self.continuous {
            status.append("continuous");
        } else {
            status.append("paged ");
            append_decimal(&mut status, self.current_row as u64 + 1);
            status.append("/");
            let count: usize = self.specs.len();
            append_decimal(&mut status, if count > 1 { count as u64 } else { 1 });
        }
        status.append(" \u{b7} ");
        match self.spread {
            Spread::Single => status.append("single"),
            Spread::Odd => status.append("odd spread"),
            Spread::Even => status.append("even spread"),
        }
        self.status = status;
        self.commands.push(Command::ShowStatus);
        assert(self.status@ =~= old(self)@.status_text());
    }

    /// Publishes the page number shown by the toolbar. Normally the page at the
    /// top of the view; at the very bottom of the document it reports the last
    /// page, so "End" reads as the last page even in spread mode (where the top
    /// row's left page would otherwise be one short).
    fn update_current_page(&mut self)
        requires
            old(self).wf(),
        ensures
            final(self).wf(),
            final(self)@ == old(self)@.update_current_page(),
    {
        let count: usize = self.specs.len();
        let last_row: usize = if count > 0 { count - 1 } else { 0 };
        let at_end: bool = if self.continuous {
            let furthest: i128 = self.max_scroll_px();
            furthest > 0 && self.scroll_px >= furthest - MICRO
        } else {
            self.current_row == last_row
        };
        let page: i32 = if at_end {
            self.pages.len() as i32
        } else if self.current_row < count {
            self.specs[self.current_row].left as i32 + 1
        } else {
            0
        };
        self.window.current_page = page;
    }

    /// Pushes the current row's data to the paged view.
    fn refresh_current_row(&mut self)
        ensures
            final(self)@ == old(self)@.refresh_current_row(),
            final(self).tables_in_step() == old(self).tables_in_step(),
            old(self).wf() ==> final(self).wf(),
    {
        if self.current_row < self.rows.len() {
            self.window.current_row_content = self.rows[self.current_row];
        }
    }

    /// The current paged row's rendered content size (width, height): one page, or
    /// two side by side for a spread.
    fn paged_content_size(&self) -> (size: (i128, i128))
        requires
            self.wf(),
        ensures
            (size.0 as int, size.1 as int) == self@.paged_content(),
            0 <= size.0 <= MAX_PIXELS,
            0 <= size.1 <= MAX_PIXELS,
    {
        if self.current_row >= self.specs.len() {
            return (0, 0);
        }
        let spec: RowSpec = self.specs[self.current_row];
        let left: PageSize = self.pages[spec.left];
        match spec.right {
            Some(right) => {
                let right: PageSize = self.pages[right];
                let tall: u64 = if left.height >= right.height { left.height } else { right.height };
                (
                    to_pixels(left.width as i128 + right.width as i128, self.zoom)
                        + SPREAD_SPACING,
                    to_pixels(tall as i128, self.zoom),
                )
            },
            None => (
                to_pixels(left.width as i128, self.zoom),
                to_pixels(left.height as i128, self.zoom),
            ),
        }
    }

    /// The viewport size, nothing as long as it is not known.
    fn view_size(&self) -> (size: (i128, i128))
        requires
            self.wf(),
        ensures
            (size.0 as int, size.1 as int) == self@.view_size(),
            i64::MIN <= size.0 <= i64::MAX,
            i64::MIN <= size.1 <= i64::MAX,
    {
        match self.view {
            Some((width, height)) => (width as i128, height as i128),
            None => (0, 0),
        }
    }

    /// How far the paged content can be scrolled in each direction.
    fn paged_limits(&self) -> (limits: (i128, i128))
        requires
            self.wf(),
        ensures
            (limits.0 as int, limits.1 as int) == self@.paged_limit(),
            0 <= limits.0 <= 2 * MAX_PIXELS,
            0 <= limits.1 <= 2 * MAX_PIXELS,
    {
        let content: (i128, i128) = self.paged_content_size();
        let view: (i128, i128) = self.view_size();
        let x: i128 = content.0 - view.0;
        let y: i128 = content.1 - view.1;
        (if x > 0 { x } else { 0 }, if y > 0 { y } else { 0 })
    }

    /// Clamps the paged scroll offset to the current page and content size and
    /// publishes the resulting content geometry.
    fn push_paged_offsets(&mut self)
        requires
            old(self).wf(),
        ensures
            final(self).wf(),
            final(self)@ == old(self)@.push_paged_offsets(),
    {
        let content: (i128, i128) = self.paged_content_size();
        let view: (i128, i128) = self.view_size();
        let limits: (i128, i128) = self.paged_limits();
        self.paged_scroll_x = limit(self.paged_scroll_x, 0, limits.0);
        self.paged_scroll_y = limit(self.paged_scroll_y, 0, limits.1);
        // Center each axis when the content is smaller than the viewport,
        // otherwise offset by the scroll position.
        self.window.paged_offset_x = if content.0 <= view.0 {
            (view.0 - content.0) / 2
        } else {
            -self.paged_scroll_x
        };
        self.window.paged_offset_y = if content.1 <= view.1 {
            (view.1 - content.1) / 2
        } else {
            -self.paged_scroll_y
        };
        self.window.paged_content_w = content.0;
        self.window.paged_content_h = content.1;
    }

    /// Takes a zoom and does all that follows from it.
    fn apply_zoom(&mut self, zoom: i128)
        requires
            old(self).wf(),
            old(self)@.generation < u64::MAX,
        ensures
            final(self).wf(),
            final(self)@ == old(self)@.with_zoom(zoom as int),
    {
        self.zoom = limit(zoom, MIN_ZOOM, MAX_ZOOM);
        self.window.density = 4 * self.zoom / 3;
        self.push_paged_offsets();
        self.rerender_view();
        self.update_status();
    }

    /// Publishes the density. Zoom changes the paged content size, so its offsets
    /// are kept in range.
    fn apply_density(&mut self)
        requires
            old(self).wf(),
        ensures
            final(self).wf(),
            final(self)@ == old(self)@.apply_density(),
    {
        self.window.density = 4 * self.zoom / 3;
        self.push_paged_offsets();
    }

    /// Zooms freely.
    fn set_zoom(&mut self, zoom: i128)
        requires
            old(self).wf(),
            old(self)@.generation < u64::MAX,
        ensures
            final(self).wf(),
            final(self)@ == old(self)@.set_zoom(zoom as int),
    {
        self.fit = FitMode::Free;
        self.apply_zoom(zoom);
    }

    /// Zooms as the fit mode asks, if one is active and there is something to fit.
    fn apply_fit(&mut self)
        requires
            old(self).wf(),
            old(self)@.generation < u64::MAX,
        ensures
            final(self).wf(),
            final(self)@ == old(self)@.apply_fit(),
    {
        if self.view.is_none() || self.ref_w_pt == 0 || self.ref_h_pt == 0 {
            return;
        }
        let view: (i128, i128) = self.view_size();
        proof {
            lemma_widest_bound(self@.specs(), self@.pages);
        }
        let across: i128 = zoom_to_fit(view.0, self.ref_w_pt as i128);
        let zoom: i128 = match self.fit {
            FitMode::Width => across,
            FitMode::Page => {
                let down: i128 = zoom_to_fit(view.1, self.ref_h_pt as i128);
                if across <= down {
                    across
                } else {
                    down
                }
            },
            FitMode::Free => {
                return;
            },
        };
        self.apply_zoom(zoom);
    }

    /// Re-applies the current zoom after a layout change: re-fit if a fit mode is
    /// active, otherwise just push the density.
    fn reapply_scale(&mut self)
        requires
            old(self).wf(),
            old(self)@.generation < u64::MAX,
        ensures
            final(self).wf(),
            final(self)@ == old(self)@.reapply_scale(),
    {
        if self.fit != FitMode::Free {
            self.apply_fit();
        } else {
            self.apply_density();
        }
    }

    /// Writes one page's entry into its row's left or right slot.
    fn set_row_entry(&mut self, row: usize, is_right: bool, page: PageEntry)
        requires
            row < old(self)@.rows.len(),
        ensures
            final(self)@ == (Model {
                rows: with_entry(old(self)@.rows, (row as int, is_right), page),
                ..old(self)@
            }),
            final(self).tables_in_step() == old(self).tables_in_step(),
            final(self).page_loc == old(self).page_loc,
    {
        let mut changed: PageRow = self.rows[row];
        if is_right {
            changed.right = page;
        } else {
            changed.left = page;
        }
        self.rows.set(row, changed);
        assert(self.specs == old(self).specs);
    }

    /// Replaces a page's image, keeping its geometry so layout is unchanged.
    fn set_page_image(&mut self, page: usize, image: Option<u64>)
        requires
            old(self).tables_in_step(),
            page < old(self)@.pages.len() <= i32::MAX,
            old(self)@.rows.len() == old(self)@.specs().len(),
        ensures
            final(self).tables_in_step(),
            final(self)@ == old(self)@.set_image(page as int, image),
    {
        proof {
            law_locations_map_pages_back_to_rows(
                self.pages@.len() as int,
                self.spread,
                page as int,
            );
            law_each_page_has_one_place(self.pages@.len() as int, self.spread, page as int);
        }
        let (row, is_right) = self.page_loc[page];
        let size: PageSize = self.pages[page];
        self.set_row_entry(
            row,
            is_right,
            PageEntry { page: page as i32, width_pt: size.width, height_pt: size.height, image },
        );
        if !self.continuous && row == self.current_row {
            self.refresh_current_row();
        }
    }

    /// Remembers that a page's image is kept. Returns the page whose image is to be
    /// dropped for it, if any.
    fn retain(&mut self, page: usize) -> (evicted: Option<usize>)
        requires
            old(self)@.retained.len() <= MAX_RETAINED,
        ensures
            final(self)@ == (Model {
                retained: old(self)@.joined(page as int),
                ..old(self)@
            }),
            final(self).tables_in_step() == old(self).tables_in_step(),
            evicted == old(self)@.evicted(page as int),
    {
        let ghost joined = self@.retained.push(page);
        self.retained.push_back(page);
        let mut evicted: Option<usize> = None;
        if self.retained.len() > MAX_RETAINED {
            if let Some(candidate) = self.retained.pop_front() {
                assert(self.retained@ =~= joined.skip(1));
                if !self.is_retained(candidate) {
                    evicted = Some(candidate);
                }
            }
        }
        evicted
    }

    /// Installs a freshly rendered page image into its row, evicting the
    /// furthest-back image if that is one over the retention budget. Returns the
    /// page whose image was dropped, if any; it re-renders when scrolled back into
    /// view.
    pub fn on_page_rendered(&mut self, page: i32, image: u64) -> (evicted: Option<usize>)
        requires
            old(self).wf(),
        ensures
            final(self).wf(),
            final(self)@ == old(self)@.on_page_rendered(page as int, image),
            evicted == (if 0 <= page < old(self)@.pages.len() {
                old(self)@.evicted(page as int)
            } else {
                None
            }),
    {
        if page < 0 || page as usize >= self.pages.len() {
            return None;
        }
        let index: usize = page as usize;
        let evicted: Option<usize> = self.retain(index);
        self.set_page_image(index, Some(image));
        if let Some(gone) = evicted {
            self.set_page_image(gone, None);
        }
        proof {
            lemma_on_page_rendered_wf(old(self)@, page as int, image);
        }
        evicted
    }

    /// The rows of a layout, their pages showing the given images.
    fn build_rows(pages: &Vec<PageSize>, specs: &Vec<RowSpec>, images: &Vec<Option<u64>>) -> (rows:
        Vec<PageRow>)
        requires
            pages@.len() <= i32::MAX,
            images@.len() == pages@.len(),
            specs_within(specs@, pages@.len() as int),
        ensures
            rows@ == filled_rows(pages@, specs@, images@),
    {
        let mut rows: Vec<PageRow> = Vec::new();
        for row in 0..specs.len()
            invariant
                pages@.len() <= i32::MAX,
                images@.len() == pages@.len(),
                specs_within(specs@, pages@.len() as int),
                rows@ == filled_rows(pages@, specs@, images@).take(row as int),
        {
            let spec: RowSpec = specs[row];
            let left: PageEntry = Self::page_entry(pages, spec.left, images[spec.left]);
            let filled: PageRow = match spec.right {
                Some(right) => PageRow {
                    left,
                    right: Self::page_entry(pages, right, images[right]),
                    has_right: true,
                },
                None => PageRow { left, right: Self::placeholder(), has_right: false },
            };
            rows.push(filled);
        }
        rows
    }

    /// A page's slot with the given image.
    fn page_entry(pages: &Vec<PageSize>, page: usize, image: Option<u64>) -> (slot: PageEntry)
        requires
            page < pages@.len() <= i32::MAX,
        ensures
            slot == entry(pages@, page as int, image),
    {
        let size: PageSize = pages[page];
        PageEntry { page: page as i32, width_pt: size.width, height_pt: size.height, image }
    }

    /// A dummy entry for the unused right half of a single-page row.
    fn placeholder() -> (slot: PageEntry)
        ensures
            slot == placeholder(),
    {
        PageEntry { page: -1, width_pt: 0, height_pt: 0, image: None }
    }

    /// As many missing images as there are pages.
    fn missing_images(count: usize) -> (images: Vec<Option<u64>>)
        ensures
            images@ == no_images(count as nat),
    {
        let mut images: Vec<Option<u64>> = Vec::new();
        for page in 0..count
            invariant
                images@ == no_images(page as nat),
        {
            images.push(None);
        }
        images
    }

    /// Rows for a spread mode, with nothing rendered but thumbnails.
    fn lay_out(&mut self, spread: Spread)
        requires
            old(self)@.basics(),
        ensures
            final(self).wf(),
            final(self)@ == old(self)@.laid_out(spread),
    {
        let count: usize = self.pages.len();
        self.spread = spread;
        self.window.spread_mode = spread_index(spread);
        self.specs = build_row_specs(count, spread);
        proof {
            lemma_specs_within(count as int, spread);
        }
        self.page_loc = page_locations(self.specs.as_slice(), count);
        let dims: (u128, u64) = reference_dims(self.specs.as_slice(), self.pages.as_slice());
        self.ref_w_pt = dims.0;
        self.ref_h_pt = dims.1;
        self.window.row_height_pt = dims.1;
        self.retained = VecDeque::new();
        let last_row: usize = if self.specs.len() > 0 { self.specs.len() - 1 } else { 0 };
        if self.current_row > last_row {
            self.current_row = last_row;
        }
        let missing: Vec<Option<u64>> = Self::missing_images(count);
        self.rows = Self::build_rows(&self.pages, &self.specs, &missing);
        self.thumb_rows = Self::build_rows(&self.pages, &self.specs, &self.thumb_images);
        proof {
            lemma_fresh_rows(self.pages@, spread);
            assert(self@.rows_in_step()) by {
                lemma_rows_show_same(
                    self.pages@,
                    spread,
                    self.rows@,
                    |page: int| false,
                    |page: int| self@.retained.contains(page as usize),
                );
            }
        }
    }

    /// Rebuilds rows for a spread mode, and shows the current one.
    fn build_layout(&mut self, spread: Spread)
        requires
            old(self)@.basics(),
            old(self)@.generation < u64::MAX,
        ensures
            final(self).wf(),
            final(self)@ == old(self)@.build_layout(spread),
    {
        self.lay_out(spread);
        self.refresh_current_row();
        if !self.continuous {
            self.request_current_row();
        }
        self.update_current_page();
        self.push_paged_offsets();
    }

    /// A viewer for a document with the given page sizes, shown continuously, one
    /// page per row, each fit to the page once the viewport is known.
    pub fn new(pages: Vec<PageSize>, scale_factor: u32) -> (viewer: Self)
        requires
            pages@.len() <= i32::MAX,
        ensures
            viewer.wf(),
            viewer@ == Model::new(pages@, scale_factor as int),
    {
        let count: usize = pages.len();
        let nothing: PageRow = PageRow {
            left: Self::placeholder(),
            right: Self::placeholder(),
            has_right: false,
        };
        let mut viewer: Viewer = Viewer {
            pages,
            zoom: MICRO,
            scale_factor,
            view: None,
            fit: FitMode::Page,
            retained: VecDeque::new(),
            spread: Spread::Single,
            continuous: true,
            current_row: 0,
            scroll_px: 0,
            paged_scroll_x: 0,
            paged_scroll_y: 0,
            generation: 0,
            specs: Vec::new(),
            page_loc: Vec::new(),
            ref_w_pt: 0,
            ref_h_pt: 0,
            thumb_images: Self::missing_images(count),
            rows: Vec::new(),
            thumb_rows: Vec::new(),
            window: Window {
                page_count: count as i32,
                current_page: 0,
                spread_mode: 0,
                continuous: true,
                density: 4 * MICRO / 3,
                scroll_y: 0,
                row_height_pt: 0,
                paged_offset_x: 0,
                paged_offset_y: 0,
                paged_content_w: 0,
                paged_content_h: 0,
                current_row_content: nothing,
            },
            status: String::new(),
            commands: Vec::new(),
        };
        viewer.build_layout(Spread::Single);
        viewer.apply_density();
        viewer.update_status();
        viewer.update_current_page();
        viewer
    }

    /// Moves the list.
    fn scroll_list(&mut self, y: i128)
        requires
            old(self).wf(),
        ensures
            final(self).wf(),
            final(self)@ == old(self)@.scroll_list(y as int),
    {
        self.window.scroll_y = y;
        self.commands.push(Command::ScrollTo(y));
    }

    /// Shows the current row in paged mode.
    fn show_row(&mut self)
        requires
            old(self).wf(),
            old(self)@.generation < u64::MAX,
        ensures
            final(self).wf(),
            final(self)@ == old(self)@.show_row(),
    {
        self.refresh_current_row();
        self.request_current_row();
        self.push_paged_offsets();
    }

    /// Moves so the given row is at the top: scrolls the list in continuous mode,
    /// or swaps the shown row in paged mode.
    fn scroll_to_row(&mut self, row: usize)
        requires
            old(self).wf(),
            old(self)@.generation < u64::MAX,
        ensures
            final(self).wf(),
            final(self)@ == old(self)@.scroll_to_row(row as int),
    {
        if self.specs.len() == 0 {
            return;
        }
        let last: usize = self.specs.len() - 1;
        let target: usize = if row < last { row } else { last };
        let pitch: i128 = self.row_height_px();
        proof {
            lemma_offset_bound(target as int, pitch as int);
        }
        let offset: i128 = target as i128 * pitch;
        self.current_row = target;
        self.scroll_px = offset;
        if self.continuous {
            self.scroll_list(-offset);
            self.request_current_row();
        } else {
            // A new page starts scrolled to the top.
            self.paged_scroll_x = 0;
            self.paged_scroll_y = 0;
            self.show_row();
        }
        self.update_current_page();
    }

    /// Adjusts the continuous scroll offset by a delta, clamped to the document.
    fn scroll_by(&mut self, delta: i128)
        requires
            old(self).wf(),
            -MAX_PIXELS <= delta <= MAX_PIXELS,
        ensures
            final(self).wf(),
            final(self)@ == old(self)@.scroll_by(delta as int),
    {
        let furthest: i128 = self.max_scroll_px();
        let target: i128 = if self.scroll_px > furthest + MAX_PIXELS {
            furthest
        } else {
            limit(self.scroll_px + delta, 0, furthest)
        };
        self.scroll_px = target;
        self.scroll_list(-target);
        self.update_current_page();
    }

    /// Moves to the previous/next page boundary from the current position.
    fn page_jump(&mut self, dir: i32)
        requires
            old(self).wf(),
            old(self)@.generation < u64::MAX,
        ensures
            final(self).wf(),
            final(self)@ == old(self)@.nav_page(dir as int),
    {
        if self.specs.len() == 0 {
            return;
        }
        let last: i128 = self.specs.len() as i128 - 1;
        let row: i128 = if self.continuous {
            let pitch: i128 = self.row_height_px();
            proof {
                lemma_row_quotients(self.scroll_px as int, 0, pitch as int);
                vstd::arithmetic::div_mod::lemma_mod_bound(self.scroll_px as int, pitch as int);
            }
            let top: i128 = self.scroll_px / pitch;
            if dir > 0 {
                top + 1
            } else if 100 * (self.scroll_px % pitch) > pitch {
                // Scrolled partway into a page: snap to that page's start.
                top
            } else {
                top - 1
            }
        } else {
            self.current_row as i128 + dir as i128
        };
        let target: i128 = limit(row, 0, last);
        self.scroll_to_row(target as usize);
    }

    /// Moves to the adjacent page in paged mode, landing at the top when moving
    /// forward and at the bottom when moving back, so scrolling reads as one
    /// continuous flow across the page boundary.
    fn paged_step_page(&mut self, dir: i32)
        requires
            old(self).wf(),
            old(self)@.generation < u64::MAX,
        ensures
            final(self).wf(),
            final(self)@ == old(self)@.paged_step_page(dir as int),
    {
        let count: i128 = self.specs.len() as i128;
        let last: i128 = if count > 0 { count - 1 } else { 0 };
        let target: i128 = limit(self.current_row as i128 + dir as i128, 0, last);
        if target == self.current_row as i128 {
            return;  // at the first/last page already
        }
        self.current_row = target as usize;
        self.paged_scroll_x = 0;
        let limits: (i128, i128) = self.paged_limits();
        self.paged_scroll_y = if dir < 0 { limits.1 } else { 0 };
        self.show_row();
        self.update_current_page();
    }

    /// Requests renders for every page in a row.
    pub fn request_render_row(&mut self, row: i32)
        requires
            old(self).wf(),
        ensures
            final(self).wf(),
            final(self)@ == old(self)@.request_render_row(row as int),
    {
        self.send_row(if row > 0 { row as usize } else { 0 }, false);
    }

    /// Updates the remembered viewport size and the display's scale factor,
    /// re-fitting or re-rendering as needed.
    pub fn set_viewport(&mut self, width: i64, height: i64, scale_factor: u32)
        requires
            old(self).wf(),
            old(self)@.generation < u64::MAX,
        ensures
            final(self).wf(),
            final(self)@ == old(self)@.set_viewport(
                width as int,
                height as int,
                scale_factor as int,
            ),
    {
        let change: i64 = scale_factor as i64 - self.scale_factor as i64;
        self.view = Some((width, height));
        self.scale_factor = scale_factor;
        if self.fit != FitMode::Free {
            self.apply_fit();
        } else if change > 1_000 || change < -1_000 {
            self.rerender_view();
        }
        // Viewport size affects paged centering and scroll limits.
        self.push_paged_offsets();
    }

    /// Zooms in by a quarter.
    pub fn zoom_in(&mut self)
        requires
            old(self).wf(),
            old(self)@.generation < u64::MAX,
        ensures
            final(self).wf(),
            final(self)@ == old(self)@.zoom_in(),
    {
        self.set_zoom(5 * self.zoom / 4);
    }

    /// Zooms out by as much as zooming in zooms in.
    pub fn zoom_out(&mut self)
        requires
            old(self).wf(),
            old(self)@.generation < u64::MAX,
        ensures
            final(self).wf(),
            final(self)@ == old(self)@.zoom_out(),
    {
        self.set_zoom(4 * self.zoom / 5);
    }

    /// Zooms to 100%.
    pub fn zoom_reset(&mut self)
        requires
            old(self).wf(),
            old(self)@.generation < u64::MAX,
        ensures
            final(self).wf(),
            final(self)@ == old(self)@.zoom_reset(),
    {
        self.set_zoom(MICRO);
    }

    /// Makes the widest row span the viewport, now and whenever the viewport or
    /// the layout changes.
    pub fn fit_width(&mut self)
        requires
            old(self).wf(),
            old(self)@.generation < u64::MAX,
        ensures
            final(self).wf(),
            final(self)@ == old(self)@.fit_to(FitMode::Width),
    {
        self.fit = FitMode::Width;
        self.apply_fit();
    }

    /// Makes every row fit the viewport, now and whenever the viewport or the
    /// layout changes.
    pub fn fit_page(&mut self)
        requires
            old(self).wf(),
            old(self)@.generation < u64::MAX,
        ensures
            final(self).wf(),
            final(self)@ == old(self)@.fit_to(FitMode::Page),
    {
        self.fit = FitMode::Page;
        self.apply_fit();
    }

    /// Goes over to continuous scroll, at the row paged mode left off on.
    fn enter_continuous(&mut self)
        requires
            old(self).wf(),
        ensures
            final(self).wf(),
            final(self)@ == old(self)@.enter_continuous(),
    {
        // Align the continuous scroll offset to the row paged mode left off on,
        // otherwise the list snaps back to its previous position.
        let pitch: i128 = self.row_height_px();
        proof {
            lemma_offset_bound(self.current_row as int, pitch as int);
        }
        let target: i128 = limit(self.current_row as i128 * pitch, 0, self.max_scroll_px());
        self.continuous = true;
        self.window.continuous = true;
        self.scroll_px = target;
        self.scroll_list(-target);
    }

    /// Goes over to paged mode, where a freshly shown page starts at its top.
    fn enter_paged(&mut self)
        requires
            old(self).wf(),
            old(self)@.generation < u64::MAX,
        ensures
            final(self).wf(),
            final(self)@ == old(self)@.enter_paged(),
    {
        self.continuous = false;
        self.window.continuous = false;
        self.paged_scroll_x = 0;
        self.paged_scroll_y = 0;
        self.refresh_current_row();
        self.request_current_row();
    }

    /// Applies what a change of the layout or mode means for the scale, the status
    /// line and the page number.
    fn settle(&mut self)
        requires
            old(self).wf(),
            old(self)@.generation < u64::MAX,
        ensures
            final(self).wf(),
            final(self)@ == old(self)@.reapply_scale().update_status().update_current_page(),
    {
        self.reapply_scale();
        self.update_status();
        self.update_current_page();
    }

    /// Selects continuous scroll or one-row-per-screen. Either direction keeps
    /// the reading position: paged mode tracks the current row (set on scroll),
    /// and returning to continuous scrolls the list back to that same row.
    pub fn set_continuous(&mut self, continuous: bool)
        requires
            old(self).wf(),
            old(self)@.generation + 2 <= u64::MAX,
        ensures
            final(self).wf(),
            final(self)@ == old(self)@.set_continuous(continuous),
    {
        if self.continuous == continuous {
            return;
        }
        if continuous {
            self.enter_continuous();
        } else {
            self.enter_paged();
        }
        self.settle();
    }

    /// Switches between the two scroll modes.
    pub fn toggle_continuous(&mut self)
        requires
            old(self).wf(),
            old(self)@.generation + 2 <= u64::MAX,
        ensures
            final(self).wf(),
            final(self)@ == old(self)@.set_continuous(!old(self)@.continuous),
    {
        self.set_continuous(!self.continuous);
    }

    /// Sets the spread mode (0 = single, 1 = odd, 2 = even) and rebuilds rows.
    pub fn set_spread(&mut self, mode: i32)
        requires
            old(self).wf(),
            old(self)@.generation + 2 <= u64::MAX,
        ensures
            final(self).wf(),
            final(self)@ == old(self)@.set_spread(mode as int),
    {
        let spread: Spread = if mode == 1 {
            Spread::Odd
        } else if mode == 2 {
            Spread::Even
        } else {
            Spread::Single
        };
        self.build_layout(spread);
        self.settle();
    }

    /// Reports the continuous scroll offset (logical pixels from the top) so the
    /// current page can be tracked. Rows are uniform height, so the top row is an
    /// exact division. Rows past the end of the document are never requested.
    pub fn scrolled(&mut self, offset: i128)
        requires
            old(self).wf(),
            old(self)@.generation < u64::MAX,
        ensures
            final(self).wf(),
            final(self)@ == old(self)@.scrolled(offset as int),
    {
        if self.specs.len() == 0 {
            return;
        }
        let last: i128 = self.specs.len() as i128 - 1;
        let pitch: i128 = self.row_height_px();
        let row: i128 = row_nearest(offset, pitch);
        self.scroll_px = if offset > 0 { offset } else { 0 };
        self.current_row = if row < last { row as usize } else { last as usize };
        self.update_current_page();
        self.request_visible(false);
    }

    /// Jumps to a 1-based page typed into the toolbar field. Invalid input is
    /// ignored.
    pub fn go_to_page(&mut self, text: &str)
        requires
            old(self).wf(),
            old(self)@.generation < u64::MAX,
        ensures
            final(self).wf(),
            final(self)@ == old(self)@.go_to_page(text@),
    {
        if let Some(requested) = parse_integer(text) {
            // The lowest number of all is out of range with or without the step
            // to 0-based pages.
            self.nav_to_page(if requested > i32::MIN { requested - 1 } else { requested });
        }
    }

    /// Navigates to a 0-based page (from the outline or a thumbnail click).
    pub fn nav_to_page(&mut self, page: i32)
        requires
            old(self).wf(),
            old(self)@.generation < u64::MAX,
        ensures
            final(self).wf(),
            final(self)@ == old(self)@.nav_to_page(page as int),
    {
        let count: usize = self.page_loc.len();
        if count == 0 {
            return;
        }
        let target: usize = if page < 0 {
            0
        } else if (page as usize) < count {
            page as usize
        } else {
            count - 1
        };
        proof {
            law_locations_map_pages_back_to_rows(count as int, self.spread, target as int);
            law_each_page_has_one_place(count as int, self.spread, target as int);
        }
        let (row, _) = self.page_loc[target];
        self.scroll_to_row(row);
    }

    /// Installs a rendered thumbnail into the sidebar's thumbnail model.
    pub fn on_thumbnail_rendered(&mut self, page: i32, image: u64)
        requires
            old(self).wf(),
        ensures
            final(self).wf(),
            final(self)@ == old(self)@.on_thumbnail_rendered(page as int, image),
    {
        if page < 0 || page as usize >= self.pages.len() {
            return;
        }
        let index: usize = page as usize;
        proof {
            law_locations_map_pages_back_to_rows(
                self.pages@.len() as int,
                self.spread,
                page as int,
            );
            law_each_page_has_one_place(self.pages@.len() as int, self.spread, page as int);
            lemma_thumbnail_in_place(self@, page as int, image);
        }
        let (row, is_right) = self.page_loc[index];
        self.thumb_images.set(index, Some(image));
        let slot: PageEntry = Self::page_entry(&self.pages, index, Some(image));
        let mut changed: PageRow = self.thumb_rows[row];
        if is_right {
            changed.right = slot;
        } else {
            changed.left = slot;
        }
        self.thumb_rows.set(row, changed);
        assert(self@ =~= old(self)@.on_thumbnail_rendered(page as int, image));
    }

    /// Requests thumbnails for a visible thumbnail row's pages. Each page is
    /// rendered at most once, so re-requests are cheap.
    pub fn request_thumbnail_row(&mut self, row: i32)
        requires
            old(self).wf(),
        ensures
            final(self).wf(),
            final(self)@ == old(self)@.request_thumbnail_row(row as int),
    {
        let index: usize = if row > 0 { row as usize } else { 0 };
        if index < self.specs.len() {
            let spec: RowSpec = self.specs[index];
            self.commands.push(Command::Thumbnail(spec.left as i32));
            if let Some(right) = spec.right {
                self.commands.push(Command::Thumbnail(right as i32));
            }
        }
    }

    /// Arrow up/down (dir -1/+1). Continuous mode always scrolls; paged mode
    /// scrolls within a tall page and moves to the next page at the edge.
    pub fn nav_line(&mut self, dir: i32)
        requires
            old(self).wf(),
            old(self)@.generation < u64::MAX,
        ensures
            final(self).wf(),
            final(self)@ == old(self)@.nav_line(dir as int),
    {
        let step: i128 = dir as i128 * SCROLL_STEP;
        if self.continuous {
            self.scroll_by(step);
        } else {
            // A downward step (dir +1) carries a negative wheel delta.
            self.paged_scroll(0, (-step) as i64, false);
        }
    }

    /// Page up/down (dir -1/+1): always to the start of the previous/next page.
    pub fn nav_page(&mut self, dir: i32)
        requires
            old(self).wf(),
            old(self)@.generation < u64::MAX,
        ensures
            final(self).wf(),
            final(self)@ == old(self)@.nav_page(dir as int),
    {
        self.page_jump(dir);
    }

    /// Home: start of the first page.
    pub fn nav_home(&mut self)
        requires
            old(self).wf(),
            old(self)@.generation < u64::MAX,
        ensures
            final(self).wf(),
            final(self)@ == old(self)@.nav_home(),
    {
        self.scroll_to_row(0);
    }

    /// End: the very bottom of the document, so the last page is fully visible.
    /// The toolbar shows the last page, also where nothing scrolls.
    pub fn nav_end(&mut self)
        requires
            old(self).wf(),
            old(self)@.generation < u64::MAX,
        ensures
            final(self).wf(),
            final(self)@ == old(self)@.nav_end(),
    {
        if self.specs.len() == 0 {
            return;
        }
        self.current_row = self.specs.len() - 1;
        // Continuous scrolls to the maximum offset (document bottom); paged just
        // shows the last row.
        let target: i128 = if self.continuous { self.max_scroll_px() } else { 0 };
        self.scroll_px = target;
        if self.continuous {
            self.scroll_list(-target);
            self.request_current_row();
        } else {
            self.paged_scroll_x = 0;
            self.paged_scroll_y = 0;
            self.show_row();
        }
        self.window.current_page = self.pages.len() as i32;
    }

    /// Paged-mode wheel handling: scroll within the current page, and move to the
    /// previous/next page only once the top/bottom edge is reached. Shift makes a
    /// vertical wheel scroll horizontally.
    pub fn paged_scroll(&mut self, delta_x: i64, delta_y: i64, shift: bool)
        requires
            old(self).wf(),
            old(self)@.generation < u64::MAX,
        ensures
            final(self).wf(),
            final(self)@ == old(self)@.paged_scroll(delta_x as int, delta_y as int, shift),
    {
        // A downward/rightward wheel carries a negative delta; scrolling in that
        // direction increases the offset.
        let across: i128 = if shift { -(delta_y as i128) } else { -(delta_x as i128) };
        let down: i128 = if shift { 0 } else { -(delta_y as i128) };
        let limits: (i128, i128) = self.paged_limits();
        self.paged_scroll_x = limit(self.paged_scroll_x + across, 0, limits.0);
        if down > 0 && self.paged_scroll_y >= limits.1 - MICRO / 2 {
            // At the bottom, scrolling down: next page.
            self.paged_step_page(1);
        } else if down < 0 && self.paged_scroll_y <= MICRO / 2 {
            // At the top, scrolling up: previous page.
            self.paged_step_page(-1);
        } else {
            self.paged_scroll_y = limit(self.paged_scroll_y + down, 0, limits.1);
            self.push_paged_offsets();
        }
    }

    /// Hands over the commands collected so far, in order.
    pub fn take_commands(&mut self) -> (commands: Vec<Command>)
        requires
            old(self).wf(),
        ensures
            final(self).wf(),
            commands@ == old(self)@.commands,
            final(self)@ == old(self)@.without_commands(),
    {
        let mut commands: Vec<Command> = Vec::new();
        std::mem::swap(&mut commands, &mut self.commands);
        commands
    }

    /// The properties that the window shows.
    pub fn window(&self) -> (window: Window)
        ensures
            window.model(self@.window.status) == self@.window,
            window.page_count == self@.window.page_count,
            window.current_page == self@.window.current_page,
            window.spread_mode == self@.window.spread_mode,
            window.continuous == self@.window.continuous,
            window.density == self@.window.density,
            window.scroll_y == self@.window.scroll_y,
            window.row_height_pt == self@.window.row_height_pt,
            window.paged_offset_x == self@.window.paged_offset_x,
            window.paged_offset_y == self@.window.paged_offset_y,
            window.paged_content_w == self@.window.paged_content_w,
            window.paged_content_h == self@.window.paged_content_h,
            window.current_row_content == self@.window.current_row_content,
    {
        self.window
    }

    /// The status line.
    pub fn status(&self) -> (status: &str)
        ensures
            status@ == self@.window.status,
    {
        self.status.as_str()
    }

    /// Number of rows (one page each, or two for a spread).
    pub fn row_count(&self) -> (count: usize)
        requires
            self.wf(),
        ensures
            count == self@.rows.len(),
            count == self@.specs().len(),
    {
        self.rows.len()
    }

    /// A row, if there is one.
    pub fn row(&self, index: usize) -> (row: Option<PageRow>)
        ensures
            row == (if index < self@.rows.len() { Some(self@.rows[index as int]) } else { None }),
    {
        if index < self.rows.len() {
            Some(self.rows[index])
        } else {
            None
        }
    }

    /// A row of the thumbnail sidebar, if there is one.
    pub fn thumb_row(&self, index: usize) -> (row: Option<PageRow>)
        ensures
            row == (if index < self@.thumb_rows.len() {
                Some(self@.thumb_rows[index as int])
            } else {
                None
            }),
    {
        if index < self.thumb_rows.len() {
            Some(self.thumb_rows[index])
        } else {
            None
        }
    }

    /// The row of a page, if there is such a page.
    pub fn row_of(&self, page: usize) -> (row: Option<usize>)
        requires
            self.wf(),
        ensures
            page < self@.pages.len() ==> row == Some(
                page_slot(self@.spread, page as int).0 as usize,
            ),
            page >= self@.pages.len() ==> row is None,
    {
        if page >= self.page_loc.len() {
            return None;
        }
        proof {
            law_locations_map_pages_back_to_rows(
                self.pages@.len() as int,
                self.spread,
                page as int,
            );
        }
        Some(self.page_loc[page].0)
    }

    /// The current view epoch.
    pub fn generation(&self) -> (generation: u64)
        ensures
            generation == self@.generation,
    {
        self.generation
    }
}

/// The top of a row is within the extent of a document.
proof fn lemma_offset_bound(row: int, pitch: int)
    requires
        0 <= row <= i32::MAX,
        0 <= pitch <= MAX_PIXELS,
    ensures
        0 <= row * pitch <= MAX_EXTENT,
{
    assert(0 <= row * pitch <= i32::MAX * MAX_PIXELS) by (nonlinear_arith)
        requires
            0 <= row <= i32::MAX,
            0 <= pitch <= MAX_PIXELS,
    ;
}

/// Replacing a thumbnail in its row is what rebuilding all rows comes to.
proof fn lemma_thumbnail_in_place(model: Model, page: int, image: u64)
    requires
        model.wf(),
        0 <= page < model.pages.len(),
    ensures
        with_entry(
            model.thumb_rows,
            page_slot(model.spread, page),
            entry(model.pages, page, Some(image)),
        ) == filled_rows(
            model.pages,
            model.specs(),
            model.thumb_images.update(page, Some(image)),
        ),
{
    let slot = page_slot(model.spread, page);
    let images = model.thumb_images.update(page, Some(image));
    let changed = with_entry(
        model.thumb_rows,
        slot,
        entry(model.pages, page, Some(image)),
    );
    let rebuilt = filled_rows(model.pages, model.specs(), images);
    law_each_page_has_one_place(model.pages.len() as int, model.spread, page);
    lemma_specs_within(model.pages.len() as int, model.spread);
    assert forall|row: int| 0 <= row < rebuilt.len() implies changed[row] == rebuilt[row] by {
        let spec = model.specs()[row];
        assert(spec.left < model.pages.len());
        if row != slot.0 {
            assert(spec.left != page && spec.right != Some(page as usize));
        }
    }
    assert(changed =~= rebuilt);
}

/// Rows without images show nothing as rendered.
proof fn lemma_fresh_rows(pages: Seq<PageSize>, spread: Spread)
    requires
        pages.len() <= i32::MAX,
    ensures
        rows_show(
            pages,
            spread,
            filled_rows(pages, row_specs(pages.len() as int, spread), no_images(pages.len())),
            |page: int| false,
        ),
{
    lemma_specs_within(pages.len() as int, spread);
}

/// Two pages side by side bound the width of every row.
proof fn lemma_widest_bound(specs: Seq<RowSpec>, pages: Seq<PageSize>)
    ensures
        0 <= widest(specs, pages) <= MAX_POINTS,
    decreases specs.len(),
{
    if specs.len() > 0 {
        lemma_widest_bound(specs.drop_last(), pages);
    }
}

/// Rows past the end have nothing to request.
proof fn lemma_requests_within(model: Model, from: int, to: int, force: bool, prefetch: bool)
    ensures
        model.requests(from, to, force, prefetch) == model.requests(
            from,
            min(to, model.specs().len() as int),
            force,
            prefetch,
        ),
    decreases to - from,
{
    let count = model.specs().len() as int;
    if to > count {
        if from < to {
            lemma_requests_within(model, from, to - 1, force, prefetch);
            assert(model.row_requests(to - 1, prefetch) =~= Seq::<Command>::empty());
            assert(model.requests(from, to, force, prefetch) =~= model.requests(
                from,
                to - 1,
                force,
                prefetch,
            ));
        }
    }
}

/// Requests depend only on the layout, the scale, the epoch, and what is
/// rendered.
proof fn lemma_requests_same(
    a: Model,
    b: Model,
    from: int,
    to: int,
    force: bool,
    prefetch: bool,
)
    requires
        a.pages == b.pages,
        a.spread == b.spread,
        a.retained == b.retained,
        a.zoom == b.zoom,
        a.scale_factor == b.scale_factor,
        a.generation == b.generation,
    ensures
        a.requests(from, to, force, prefetch) == b.requests(from, to, force, prefetch),
    decreases to - from,
{
    if from < to {
        lemma_requests_same(a, b, from, to - 1, force, prefetch);
        assert(a.needs(to - 1) == b.needs(to - 1));
        assert(a.row_requests(to - 1, prefetch) =~= b.row_requests(to - 1, prefetch));
    }
}

/// Row numbers are small enough to count with.
proof fn lemma_row_quotients(scroll: int, height: int, pitch: int)
    requires
        0 <= scroll <= i128::MAX,
        height <= i64::MAX,
        ROW_GAP <= pitch <= MAX_PIXELS,
    ensures
        0 <= scroll / pitch <= i128::MAX / 2,
        height > 0 ==> 0 <= (height + pitch - 1) / pitch <= MAX_PIXELS + i64::MAX,
{
    vstd::arithmetic::div_mod::lemma_div_is_ordered_by_denominator(scroll, 2, pitch);
    vstd::arithmetic::div_mod::lemma_div_pos_is_pos(scroll, pitch);
    if height > 0 {
        vstd::arithmetic::div_mod::lemma_div_is_ordered_by_denominator(
            height + pitch - 1,
            1,
            pitch,
        );
        vstd::arithmetic::div_mod::lemma_div_pos_is_pos(height + pitch - 1, pitch);
    }
}

/// Replacing one page's image changes what that page shows, and nothing else.
proof fn lemma_with_entry_shows(
    pages: Seq<PageSize>,
    spread: Spread,
    rows: Seq<PageRow>,
    rendered: spec_fn(int) -> bool,
    page: int,
    image: Option<u64>,
)
    requires
        pages.len() <= i32::MAX,
        0 <= page < pages.len(),
        rows_show(pages, spread, rows, rendered),
    ensures
        rows_show(
            pages,
            spread,
            with_entry(rows, page_slot(spread, page), entry(pages, page, image)),
            |other: int|
                if other == page {
                    image is Some
                } else {
                    rendered(other)
                },
        ),
{
    law_each_page_has_one_place(pages.len() as int, spread, page);
}

/// What rows show depends only on which pages are rendered.
proof fn lemma_rows_show_same(
    pages: Seq<PageSize>,
    spread: Spread,
    rows: Seq<PageRow>,
    a: spec_fn(int) -> bool,
    b: spec_fn(int) -> bool,
)
    requires
        pages.len() <= i32::MAX,
        rows_show(pages, spread, rows, a),
        forall|page: int| 0 <= page < pages.len() ==> #[trigger] a(page) == b(page),
    ensures
        rows_show(pages, spread, rows, b),
{
    lemma_specs_within(pages.len() as int, spread);
    let specs = row_specs(pages.len() as int, spread);
    assert forall|row: int| 0 <= row < rows.len() implies {
        let spec = specs[row];
        let left = spec.left as int;
        &&& slot_shows(pages, (#[trigger] rows[row]).left, left, b(left))
        &&& rows[row].has_right == spec.right is Some
        &&& match spec.right {
            Some(right) => slot_shows(pages, rows[row].right, right as int, b(right as int)),
            None => rows[row].right == placeholder(),
        }
    } by {
        assert(a(specs[row].left as int) == b(specs[row].left as int));
        if let Some(right) = specs[row].right {
            assert(a(right as int) == b(right as int));
        }
    }
}

/// The rows after a page was rendered.
proof fn lemma_rendered_rows(model: Model, page: int, image: u64)
    requires
        model.wf(),
        0 <= page < model.pages.len(),
    ensures
        model.on_page_rendered(page, image).rows_in_step(),
{
    let pages = model.pages;
    let spread = model.spread;
    let joined = model.retained.push(page as usize);
    let kept = if joined.len() > MAX_RETAINED { joined.skip(1) } else { joined };
    let after = model.on_page_rendered(page, image);
    let before = |other: int| model.retained.contains(other as usize);
    let between = |other: int| if other == page { true } else { before(other) };
    let wanted = |other: int| kept.contains(other as usize);
    let installed = with_entry(
        model.rows,
        page_slot(spread, page),
        entry(pages, page, Some(image)),
    );
    lemma_with_entry_shows(pages, spread, model.rows, before, page, Some(image));
    lemma_rows_show_same(
        pages,
        spread,
        installed,
        |other: int| if other == page { Some(image) is Some } else { before(other) },
        between,
    );
    assert(after.retained == kept);
    match model.evicted(page) {
        Some(gone) => {
            assert(gone < pages.len());
            lemma_with_entry_shows(pages, spread, installed, between, gone as int, None);
            let cleared = |other: int|
                if other == gone as int {
                    None::<u64> is Some
                } else {
                    between(other)
                };
            assert forall|other: int| 0 <= other < pages.len() implies #[trigger] cleared(other)
                == wanted(other) by {
                lemma_kept(model.retained, page as usize, other as usize);
            }
            lemma_rows_show_same(pages, spread, after.rows, cleared, wanted);
        },
        None => {
            assert forall|other: int| 0 <= other < pages.len() implies #[trigger] between(other)
                == wanted(other) by {
                lemma_kept(model.retained, page as usize, other as usize);
            }
            lemma_rows_show_same(pages, spread, after.rows, between, wanted);
        },
    }
}

/// Taking a rendered page keeps the viewer valid.
pub proof fn lemma_on_page_rendered_wf(model: Model, page: int, image: u64)
    requires
        model.wf(),
        0 <= page < model.pages.len(),
    ensures
        model.on_page_rendered(page, image).wf(),
{
    lemma_rendered_rows(model, page, image);
    let joined = model.retained.push(page as usize);
    let after = model.on_page_rendered(page, image);
    assert forall|i: int| 0 <= i < after.retained.len() implies #[trigger] after.retained[i]
        < after.pages.len() by {
        assert(after.retained[i] == joined[i] || after.retained[i] == joined[i + 1]);
    }
}

/// Which pages are retained once `page` has joined, and, at the limit, the
/// furthest-back place has been given up.
proof fn lemma_kept(retained: Seq<usize>, page: usize, other: usize)
    requires
        retained.len() <= MAX_RETAINED,
    ensures
        ({
            let joined = retained.push(page);
            let kept = if joined.len() > MAX_RETAINED { joined.skip(1) } else { joined };
            let gone = joined.len() > MAX_RETAINED && !joined.skip(1).contains(joined[0]);
            kept.contains(other) == (!(gone && joined[0] == other) && (other == page
                || retained.contains(other)))
        }),
{
    let joined = retained.push(page);
    assert(joined.contains(other) == (other == page || retained.contains(other))) by {
        assert(joined[retained.len() as int] == page);
        if retained.contains(other) {
            let i = choose|i: int| 0 <= i < retained.len() && retained[i] == other;
            assert(joined[i] == other);
        }
    }
    if joined.len() > MAX_RETAINED {
        let kept = joined.skip(1);
        if joined.contains(other) && other != joined[0] {
            let i = choose|i: int| 0 <= i < joined.len() && joined[i] == other;
            assert(kept[i - 1] == other);
        }
        if kept.contains(other) {
            let i = choose|i: int| 0 <= i < kept.len() && kept[i] == other;
            assert(joined[i + 1] == other);
        }
        assert(joined.contains(joined[0]));
    }
}

}
