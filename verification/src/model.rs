//! What the viewer does, as mathematics.
//!
//! [`Model`] is the viewer's state over unbounded integers and sequences, and each
//! of its functions is one step of the viewer: the state after it, given the state
//! before. The contracts of [`crate::viewer::Viewer`] are stated over these.

use vstd::prelude::*;

use crate::geometry::{
    clamp, density_at, fit_zoom, nearest_row, on_screen, render_scale, rows_spanned, MAX_PIXELS,
    MAX_ZOOM, MICRO, MIN_ZOOM, ROW_GAP, SCROLL_STEP, SPREAD_SPACING,
};
use crate::layout::{
    max, min, page_slot, row_height_pt, row_specs, row_width_pt, spread_number, tallest, widest,
    PageSize, RowSpec, Spread,
};
use crate::render::RenderRequest;
use crate::text::{decimal, integer, trimmed};

verus! {

/// Rows to prefetch on either side of the visible range while idle.
pub const PREFETCH_ROWS: usize = 4;

/// Maximum number of rendered page images retained at once.
pub const MAX_RETAINED: usize = 48;

/// How pages are scaled to the viewport when a fit mode is active.
#[derive(Clone, Copy, Debug, PartialEq, Eq, Structural)]
pub enum FitMode {
    Free,
    Width,
    Page,
}

/// A page's place in a row: which page, its size, and the image it shows, if it
/// has been rendered. Images belong to the caller, who names them by a number.
#[derive(Clone, Copy, Debug, PartialEq, Eq, Structural)]
pub struct PageEntry {
    pub page: i32,
    pub width_pt: u64,
    pub height_pt: u64,
    pub image: Option<u64>,
}

/// A row as the window shows it.
#[derive(Clone, Copy, Debug, PartialEq, Eq, Structural)]
pub struct PageRow {
    pub left: PageEntry,
    pub right: PageEntry,
    pub has_right: bool,
}

/// What the viewer asks of the outside, in order.
#[derive(Clone, Copy, Debug, PartialEq, Eq, Structural)]
pub enum Command {
    /// The view moved on to this epoch: a render from an older one is to be
    /// aborted.
    Advance(u64),
    /// Render a page.
    Render(RenderRequest),
    /// Move the list to this vertical position (zero or negative).
    ScrollTo(i128),
    /// Render the thumbnail of a page.
    Thumbnail(i32),
    /// Show the status line, which was composed anew.
    ShowStatus,
}

/// The properties that the viewer publishes to the window.
pub struct WindowModel {
    pub page_count: int,
    /// The 1-based page number shown by the toolbar.
    pub current_page: int,
    pub spread_mode: int,
    pub continuous: bool,
    pub density: int,
    /// The position of the list that was last asked for.
    pub scroll_y: int,
    pub row_height_pt: int,
    pub paged_offset_x: int,
    pub paged_offset_y: int,
    pub paged_content_w: int,
    pub paged_content_h: int,
    pub current_row_content: PageRow,
    pub status: Seq<char>,
}

/// The viewer's state.
pub struct Model {
    pub pages: Seq<PageSize>,
    pub zoom: int,
    pub scale_factor: int,
    pub view: Option<(int, int)>,
    pub fit: FitMode,
    /// The pages whose images are kept, in the order in which they were rendered.
    pub retained: Seq<usize>,
    pub spread: Spread,
    pub continuous: bool,
    pub current_row: int,
    /// Current continuous scroll offset from the top, in logical pixels.
    pub scroll: int,
    /// Scroll offset within the current page in paged mode.
    pub paged_x: int,
    pub paged_y: int,
    /// View epoch, bumped whenever the visible set changes, so the render worker
    /// can drop requests from earlier views.
    pub generation: int,
    pub rows: Seq<PageRow>,
    /// The thumbnail of each page, once it is rendered.
    pub thumb_images: Seq<Option<u64>>,
    pub thumb_rows: Seq<PageRow>,
    pub window: WindowModel,
    pub commands: Seq<Command>,
}

/// A page's slot with the given image.
pub open spec fn entry(pages: Seq<PageSize>, page: int, image: Option<u64>) -> PageEntry {
    PageEntry {
        page: page as i32,
        width_pt: pages[page].width,
        height_pt: pages[page].height,
        image,
    }
}

/// A dummy entry for the unused right half of a single-page row.
pub open spec fn placeholder() -> PageEntry {
    PageEntry { page: (-1) as i32, width_pt: 0, height_pt: 0, image: None }
}

/// A row whose pages show the given images.
pub open spec fn filled_row(
    pages: Seq<PageSize>,
    spec: RowSpec,
    images: Seq<Option<u64>>,
) -> PageRow {
    PageRow {
        left: entry(pages, spec.left as int, images[spec.left as int]),
        right: match spec.right {
            Some(right) => entry(pages, right as int, images[right as int]),
            None => placeholder(),
        },
        has_right: spec.right is Some,
    }
}

/// All rows, their pages showing the given images.
pub open spec fn filled_rows(
    pages: Seq<PageSize>,
    specs: Seq<RowSpec>,
    images: Seq<Option<u64>>,
) -> Seq<PageRow> {
    Seq::new(specs.len(), |row: int| filled_row(pages, specs[row], images))
}

/// No page has an image.
pub open spec fn no_images(count: nat) -> Seq<Option<u64>> {
    Seq::new(count, |page: int| None)
}

/// `rows` with one slot replaced.
pub open spec fn with_entry(
    rows: Seq<PageRow>,
    slot: (int, bool),
    entry: PageEntry,
) -> Seq<PageRow> {
    let row = rows[slot.0];
    rows.update(
        slot.0,
        if slot.1 {
            PageRow { right: entry, ..row }
        } else {
            PageRow { left: entry, ..row }
        },
    )
}

/// The name of a spread mode in the status line.
pub open spec fn spread_name(spread: Spread) -> Seq<char> {
    match spread {
        Spread::Single => "single"@,
        Spread::Odd => "odd spread"@,
        Spread::Even => "even spread"@,
    }
}

/// The slot of page `page` shows its size, and an image exactly if it should.
pub open spec fn slot_shows(
    pages: Seq<PageSize>,
    entry: PageEntry,
    page: int,
    rendered: bool,
) -> bool {
    &&& entry.page == page
    &&& entry.width_pt == pages[page].width
    &&& entry.height_pt == pages[page].height
    &&& entry.image is Some <==> rendered
}

/// The rows stand for the pages of the document, and exactly the `rendered` pages
/// have images.
pub open spec fn rows_show(
    pages: Seq<PageSize>,
    spread: Spread,
    rows: Seq<PageRow>,
    rendered: spec_fn(int) -> bool,
) -> bool {
    let specs = row_specs(pages.len() as int, spread);
    &&& rows.len() == specs.len()
    &&& forall|row: int|
        0 <= row < rows.len() ==> {
            let spec = specs[row];
            let left = spec.left as int;
            &&& slot_shows(pages, (#[trigger] rows[row]).left, left, rendered(left))
            &&& rows[row].has_right == spec.right is Some
            &&& match spec.right {
                Some(right) => slot_shows(
                    pages,
                    rows[row].right,
                    right as int,
                    rendered(right as int),
                ),
                None => rows[row].right == placeholder(),
            }
        }
}

impl Model {
    /// What holds whatever the layout: every number is in range.
    pub open spec fn basics(self) -> bool {
        &&& self.pages.len() <= i32::MAX
        &&& MIN_ZOOM <= self.zoom <= MAX_ZOOM
        &&& 0 <= self.scale_factor <= u32::MAX
        &&& self.view matches Some(size) ==> i64::MIN <= size.0 <= i64::MAX && i64::MIN <= size.1
            <= i64::MAX
        &&& 0 <= self.current_row
        &&& 0 <= self.scroll <= i128::MAX
        &&& 0 <= self.paged_x <= 2 * MAX_PIXELS
        &&& 0 <= self.paged_y <= 2 * MAX_PIXELS
        &&& 0 <= self.generation <= u64::MAX
        &&& self.thumb_images.len() == self.pages.len()
        &&& self.window.page_count == self.pages.len()
        &&& self.window.continuous == self.continuous
        &&& self.window.density == density_at(self.zoom)
    }

    /// What holds of the viewer at all times: every number is in range, the rows
    /// and thumbnails stand for the pages of the document, exactly the retained
    /// pages have images, and the published layout properties are up to date.
    pub open spec fn wf(self) -> bool {
        &&& self.basics()
        &&& self.retained.len() <= MAX_RETAINED
        &&& forall|i: int|
            0 <= i < self.retained.len() ==> #[trigger] self.retained[i] < self.pages.len()
        &&& self.current_row <= self.last_row()
        &&& self.rows_in_step()
        &&& self.thumb_rows == filled_rows(self.pages, self.specs(), self.thumb_images)
        &&& self.window.spread_mode == spread_number(self.spread)
        &&& self.window.row_height_pt == self.ref_h()
    }

    /// The rows stand for the pages of the document, and exactly the retained
    /// pages have images.
    pub open spec fn rows_in_step(self) -> bool {
        rows_show(
            self.pages,
            self.spread,
            self.rows,
            |page: int| self.retained.contains(page as usize),
        )
    }

    /// The rows of the document under the current spread mode.
    pub open spec fn specs(self) -> Seq<RowSpec> {
        row_specs(self.pages.len() as int, self.spread)
    }

    /// The width of the widest row, the reference for fitting.
    pub open spec fn ref_w(self) -> int {
        widest(self.specs(), self.pages)
    }

    /// The height of the tallest row, which every row takes.
    pub open spec fn ref_h(self) -> int {
        tallest(self.specs(), self.pages)
    }

    /// The viewport size, nothing as long as it is not known.
    pub open spec fn view_size(self) -> (int, int) {
        match self.view {
            Some(size) => size,
            None => (0, 0),
        }
    }

    /// The on-screen height of one row (all rows are uniform).
    pub open spec fn pitch(self) -> int {
        on_screen(self.ref_h(), self.zoom) + ROW_GAP
    }

    /// The largest valid continuous scroll offset.
    pub open spec fn scroll_limit(self) -> int {
        max(self.specs().len() * self.pitch() - self.view_size().1, 0)
    }

    /// The last row, 0 without rows.
    pub open spec fn last_row(self) -> int {
        max(self.specs().len() - 1, 0)
    }

    /// The current paged row's rendered content size (width, height): one page,
    /// or two side by side for a spread.
    pub open spec fn paged_content(self) -> (int, int) {
        if self.current_row < self.specs().len() {
            let spec = self.specs()[self.current_row];
            (
                on_screen(row_width_pt(spec, self.pages), self.zoom) + if spec.right is Some {
                    SPREAD_SPACING as int
                } else {
                    0
                },
                on_screen(row_height_pt(spec, self.pages), self.zoom),
            )
        } else {
            (0, 0)
        }
    }

    /// How far the paged content can be scrolled in each direction.
    pub open spec fn paged_limit(self) -> (int, int) {
        (
            max(self.paged_content().0 - self.view_size().0, 0),
            max(self.paged_content().1 - self.view_size().1, 0),
        )
    }

    /// The scale of render requests.
    pub open spec fn scale(self) -> int {
        render_scale(self.zoom, self.scale_factor)
    }

    /// Whether a row has a page that is not rendered.
    pub open spec fn needs(self, row: int) -> bool {
        let spec = self.specs()[row];
        !self.retained.contains(spec.left) || (spec.right matches Some(right)
            && !self.retained.contains(right))
    }

    /// The request for one page.
    pub open spec fn request(self, page: usize, prefetch: bool) -> Command {
        Command::Render(
            RenderRequest {
                page: page as i32,
                scale: self.scale() as u64,
                generation: self.generation as u64,
                prefetch,
            },
        )
    }

    /// The requests for the pages of a row, if there is such a row.
    pub open spec fn row_requests(self, row: int, prefetch: bool) -> Seq<Command> {
        if 0 <= row < self.specs().len() {
            let spec = self.specs()[row];
            match spec.right {
                Some(right) => seq![
                    self.request(spec.left, prefetch),
                    self.request(right, prefetch),
                ],
                None => seq![self.request(spec.left, prefetch)],
            }
        } else {
            Seq::empty()
        }
    }

    /// The requests for the rows from `from` up to but not including `to`, top to
    /// bottom: all of them if `force` is set, else those that need rendering.
    pub open spec fn requests(self, from: int, to: int, force: bool, prefetch: bool) -> Seq<Command>
        decreases to - from,
    {
        if from >= to {
            Seq::empty()
        } else if force || (0 <= to - 1 < self.specs().len() && self.needs(to - 1)) {
            self.requests(from, to - 1, force, prefetch) + self.row_requests(to - 1, prefetch)
        } else {
            self.requests(from, to - 1, force, prefetch)
        }
    }

    /// Adds a command.
    pub open spec fn ask(self, command: Command) -> Model {
        Model { commands: self.commands.push(command), ..self }
    }

    /// Moves the list.
    pub open spec fn scroll_list(self, y: int) -> Model {
        Model { window: WindowModel { scroll_y: y, ..self.window }, ..self }.ask(
            Command::ScrollTo(y as i128),
        )
    }

    /// Marks a new view: bumped before issuing a fresh set of render requests so
    /// the worker drops (and aborts in-progress) renders from the previous view.
    pub open spec fn advance_epoch(self) -> Model {
        Model { generation: self.generation + 1, ..self }.ask(
            Command::Advance((self.generation + 1) as u64),
        )
    }

    /// The topmost row that is on screen.
    pub open spec fn top_row(self) -> int {
        self.scroll / self.pitch()
    }

    /// The last row that may be on screen.
    pub open spec fn bottom_row(self) -> int {
        min(self.top_row() + rows_spanned(self.view_size().1, self.pitch()), self.last_row())
    }

    /// Requests the visible rows, top-first, then a prefetch margin below and
    /// above them.
    pub open spec fn request_visible(self, force: bool) -> Model {
        let next = self.advance_epoch();
        if !self.continuous || self.specs().len() == 0 {
            next
        } else {
            let top = self.top_row();
            let bottom = self.bottom_row();
            Model {
                commands: next.commands + next.requests(top, bottom + 1, force, false)
                    + next.requests(
                    bottom + 1,
                    min(bottom + PREFETCH_ROWS, self.last_row()) + 1,
                    force,
                    true,
                ) + next.requests(max(top - PREFETCH_ROWS, 0), top, force, true),
                ..next
            }
        }
    }

    /// Requests the current row (high priority) plus a few neighbors on each side
    /// as prefetch.
    pub open spec fn request_current_row(self) -> Model {
        let next = self.advance_epoch();
        if self.specs().len() == 0 {
            next
        } else {
            Model {
                commands: next.commands + next.row_requests(self.current_row, false)
                    + next.requests(
                    max(self.current_row - PREFETCH_ROWS, 0),
                    self.current_row,
                    false,
                    true,
                ) + next.requests(
                    self.current_row + 1,
                    min(self.current_row + PREFETCH_ROWS, self.last_row()) + 1,
                    false,
                    true,
                ),
                ..next
            }
        }
    }

    /// Requests the current view at a new scale.
    pub open spec fn rerender_view(self) -> Model {
        if self.continuous {
            self.request_visible(true)
        } else {
            self.request_current_row()
        }
    }

    /// The status line.
    pub open spec fn status_text(self) -> Seq<char> {
        decimal(self.pages.len()) + " pages \u{b7} "@ + decimal(
            ((self.zoom + 5_000) / 10_000) as nat,
        ) + "% \u{b7} "@ + (if self.continuous {
            "continuous"@
        } else {
            "paged "@ + decimal((self.current_row + 1) as nat) + "/"@ + decimal(
                max(self.specs().len() as int, 1) as nat,
            )
        }) + " \u{b7} "@ + spread_name(self.spread)
    }

    pub open spec fn update_status(self) -> Model {
        Model { window: WindowModel { status: self.status_text(), ..self.window }, ..self }.ask(
            Command::ShowStatus,
        )
    }

    /// Whether the view is at the very end of the document.
    pub open spec fn at_end(self) -> bool {
        if self.continuous {
            self.scroll_limit() > 0 && self.scroll >= self.scroll_limit() - MICRO
        } else {
            self.current_row == self.last_row()
        }
    }

    /// The page number shown by the toolbar. Normally the page at the top of the
    /// view; at the very bottom of the document it is the last page, so "End"
    /// reads as the last page even in spread mode (where the top row's left page
    /// would otherwise be one short).
    pub open spec fn page_number(self) -> int {
        if self.at_end() {
            self.pages.len() as int
        } else if self.current_row < self.specs().len() {
            self.specs()[self.current_row].left + 1
        } else {
            0
        }
    }

    /// Publishes a page number.
    pub open spec fn show_number(self, page: int) -> Model {
        Model { window: WindowModel { current_page: page, ..self.window }, ..self }
    }

    pub open spec fn update_current_page(self) -> Model {
        self.show_number(self.page_number())
    }

    /// Pushes the current row's data to the paged view.
    pub open spec fn refresh_current_row(self) -> Model {
        if self.current_row < self.rows.len() {
            Model {
                window: WindowModel {
                    current_row_content: self.rows[self.current_row],
                    ..self.window
                },
                ..self
            }
        } else {
            self
        }
    }

    /// Clamps the paged scroll offset to the current page and publishes the
    /// content geometry. An axis on which the content is smaller than the
    /// viewport is centered, otherwise it is offset by the scroll position.
    pub open spec fn push_paged_offsets(self) -> Model {
        let content = self.paged_content();
        let view = self.view_size();
        let x = clamp(self.paged_x, 0, self.paged_limit().0);
        let y = clamp(self.paged_y, 0, self.paged_limit().1);
        Model {
            paged_x: x,
            paged_y: y,
            window: WindowModel {
                paged_offset_x: if content.0 <= view.0 { (view.0 - content.0) / 2 } else { -x },
                paged_offset_y: if content.1 <= view.1 { (view.1 - content.1) / 2 } else { -y },
                paged_content_w: content.0,
                paged_content_h: content.1,
                ..self.window
            },
            ..self
        }
    }

    /// Publishes the density. Zoom changes the paged content size, so its offsets
    /// are kept in range.
    pub open spec fn apply_density(self) -> Model {
        Model { window: WindowModel { density: density_at(self.zoom), ..self.window }, ..self }
            .push_paged_offsets()
    }

    pub open spec fn with_zoom(self, zoom: int) -> Model {
        Model { zoom: clamp(zoom, MIN_ZOOM as int, MAX_ZOOM as int), ..self }.apply_density()
            .rerender_view().update_status()
    }

    /// Zooms freely, to a zoom within limits.
    pub open spec fn set_zoom(self, zoom: int) -> Model {
        Model { fit: FitMode::Free, ..self }.with_zoom(zoom)
    }

    /// The zoom that the fit mode asks for, if one is active and there is
    /// something to fit.
    pub open spec fn fitting_zoom(self) -> Option<int> {
        if self.view is None || self.ref_w() <= 0 || self.ref_h() <= 0 {
            None
        } else {
            let across = fit_zoom(self.view_size().0, self.ref_w());
            let down = fit_zoom(self.view_size().1, self.ref_h());
            match self.fit {
                FitMode::Free => None,
                FitMode::Width => Some(across),
                FitMode::Page => Some(min(across, down)),
            }
        }
    }

    pub open spec fn apply_fit(self) -> Model {
        match self.fitting_zoom() {
            Some(zoom) => self.with_zoom(zoom),
            None => self,
        }
    }

    /// Applies the zoom after a layout change: fits anew if a fit mode is active,
    /// otherwise just pushes the density.
    pub open spec fn reapply_scale(self) -> Model {
        if self.fit != FitMode::Free {
            self.apply_fit()
        } else {
            self.apply_density()
        }
    }

    /// Rows for a spread mode, with nothing rendered but thumbnails.
    pub open spec fn laid_out(self, spread: Spread) -> Model {
        let specs = row_specs(self.pages.len() as int, spread);
        Model {
            spread,
            retained: Seq::empty(),
            current_row: min(self.current_row, max(specs.len() - 1, 0)),
            rows: filled_rows(self.pages, specs, no_images(self.pages.len())),
            thumb_rows: filled_rows(self.pages, specs, self.thumb_images),
            window: WindowModel {
                spread_mode: spread_number(spread) as int,
                row_height_pt: tallest(specs, self.pages),
                ..self.window
            },
            ..self
        }
    }

    /// Lays the rows out for a spread mode, and shows the current one.
    pub open spec fn build_layout(self, spread: Spread) -> Model {
        let shown = self.laid_out(spread).refresh_current_row();
        (if shown.continuous { shown } else { shown.request_current_row() })
            .update_current_page().push_paged_offsets()
    }

    /// Moves so the given row is at the top: scrolls the list in continuous mode,
    /// or swaps the shown row in paged mode, where a new page starts scrolled to
    /// the top.
    pub open spec fn scroll_to_row(self, row: int) -> Model {
        if self.specs().len() == 0 {
            self
        } else {
            let target = min(row, self.last_row());
            let offset = target * self.pitch();
            let moved = Model { current_row: target, scroll: offset, ..self };
            (if self.continuous {
                moved.scroll_list(-offset).request_current_row()
            } else {
                Model { paged_x: 0, paged_y: 0, ..moved }.show_row()
            }).update_current_page()
        }
    }

    /// Shows the current row in paged mode.
    pub open spec fn show_row(self) -> Model {
        self.refresh_current_row().request_current_row().push_paged_offsets()
    }

    /// Adjusts the continuous scroll offset, clamped to the document.
    pub open spec fn scroll_by(self, delta: int) -> Model {
        let target = clamp(self.scroll + delta, 0, self.scroll_limit());
        Model { scroll: target, ..self }.scroll_list(-target).update_current_page()
    }

    /// The row that a page up or down goes to: the previous or next row boundary
    /// from the current position. Scrolled partway into a page, up goes to that
    /// page's start.
    pub open spec fn jump_target(self, dir: int) -> int {
        let row = if self.continuous {
            if dir > 0 {
                self.top_row() + 1
            } else if 100 * (self.scroll % self.pitch()) > self.pitch() {
                self.top_row()
            } else {
                self.top_row() - 1
            }
        } else {
            self.current_row + dir
        };
        clamp(row, 0, self.last_row())
    }

    /// Moves to the adjacent page in paged mode, landing at the top when moving
    /// forward and at the bottom when moving back, so scrolling reads as one
    /// continuous flow across the page boundary.
    pub open spec fn paged_step_page(self, dir: int) -> Model {
        let target = clamp(self.current_row + dir, 0, self.last_row());
        if target == self.current_row {
            self
        } else {
            let moved = Model { current_row: target, paged_x: 0, ..self };
            Model { paged_y: if dir < 0 { moved.paged_limit().1 } else { 0 }, ..moved }.show_row()
                .update_current_page()
        }
    }

    // What each operation of the viewer does.

    /// A viewer for the given pages.
    pub open spec fn new(pages: Seq<PageSize>, scale_factor: int) -> Model {
        Model {
            pages,
            zoom: MICRO as int,
            scale_factor,
            view: None,
            fit: FitMode::Page,
            retained: Seq::empty(),
            spread: Spread::Single,
            continuous: true,
            current_row: 0,
            scroll: 0,
            paged_x: 0,
            paged_y: 0,
            generation: 0,
            rows: Seq::empty(),
            thumb_images: no_images(pages.len()),
            thumb_rows: Seq::empty(),
            window: WindowModel {
                page_count: pages.len() as int,
                current_page: 0,
                spread_mode: 0,
                continuous: true,
                density: density_at(MICRO as int),
                scroll_y: 0,
                row_height_pt: 0,
                paged_offset_x: 0,
                paged_offset_y: 0,
                paged_content_w: 0,
                paged_content_h: 0,
                current_row_content: PageRow {
                    left: placeholder(),
                    right: placeholder(),
                    has_right: false,
                },
                status: Seq::empty(),
            },
            commands: Seq::empty(),
        }.build_layout(Spread::Single).apply_density().update_status().update_current_page()
    }

    pub open spec fn request_render_row(self, row: int) -> Model {
        Model { commands: self.commands + self.row_requests(max(row, 0), false), ..self }
    }

    /// The retained pages once `page` has joined: at the limit, the furthest-back place
    /// is given up.
    pub open spec fn joined(self, page: int) -> Seq<usize> {
        let joined = self.retained.push(page as usize);
        if joined.len() > MAX_RETAINED {
            joined.skip(1)
        } else {
            joined
        }
    }

    /// The page that leaves when `page` joins the retained ones, if its image is
    /// to be dropped.
    pub open spec fn evicted(self, page: int) -> Option<usize> {
        let joined = self.retained.push(page as usize);
        if joined.len() > MAX_RETAINED && !joined.skip(1).contains(joined[0]) {
            Some(joined[0])
        } else {
            None
        }
    }

    /// Replaces the image of a page.
    pub open spec fn set_image(self, page: int, image: Option<u64>) -> Model {
        let slot = page_slot(self.spread, page);
        let changed = Model {
            rows: with_entry(self.rows, slot, entry(self.pages, page, image)),
            ..self
        };
        if !self.continuous && slot.0 == self.current_row {
            changed.refresh_current_row()
        } else {
            changed
        }
    }

    /// Installs a freshly rendered page image into its row, evicting the
    /// furthest-back image if that is one over the retention budget.
    pub open spec fn on_page_rendered(self, page: int, image: u64) -> Model {
        if 0 <= page < self.pages.len() {
            let installed = Model { retained: self.joined(page), ..self }.set_image(
                page,
                Some(image),
            );
            match self.evicted(page) {
                Some(gone) => installed.set_image(gone as int, None),
                None => installed,
            }
        } else {
            self
        }
    }

    /// Remembers the viewport size and the display's scale factor, fitting or
    /// rendering anew as needed.
    pub open spec fn set_viewport(self, width: int, height: int, scale_factor: int) -> Model {
        let change = scale_factor - self.scale_factor;
        let sized = Model { view: Some((width, height)), scale_factor, ..self };
        (if self.fit != FitMode::Free {
            sized.apply_fit()
        } else if change > 1_000 || change < -1_000 {
            sized.rerender_view()
        } else {
            sized
        }).push_paged_offsets()
    }

    /// Zooms in by a quarter.
    pub open spec fn zoom_in(self) -> Model {
        self.set_zoom(5 * self.zoom / 4)
    }

    /// Zooms out by as much as zooming in zooms in.
    pub open spec fn zoom_out(self) -> Model {
        self.set_zoom(4 * self.zoom / 5)
    }

    /// Zooms to 100%.
    pub open spec fn zoom_reset(self) -> Model {
        self.set_zoom(MICRO as int)
    }

    /// Makes the widest row span the viewport, or every row fit it, now and
    /// whenever the viewport or the layout changes.
    pub open spec fn fit_to(self, fit: FitMode) -> Model {
        Model { fit, ..self }.apply_fit()
    }

    /// The mode, as kept and as published.
    pub open spec fn in_mode(self, continuous: bool) -> Model {
        Model { continuous, window: WindowModel { continuous, ..self.window }, ..self }
    }

    /// Goes over to continuous scroll: the list is scrolled to the row that paged mode
    /// left off on.
    pub open spec fn enter_continuous(self) -> Model {
        let target = clamp(self.current_row * self.pitch(), 0, self.scroll_limit());
        Model { scroll: target, ..self.in_mode(true) }.scroll_list(-target)
    }

    /// Goes over to paged mode: the current row is shown from its top.
    pub open spec fn enter_paged(self) -> Model {
        Model { paged_x: 0, paged_y: 0, ..self.in_mode(false) }.refresh_current_row()
            .request_current_row()
    }

    /// Selects continuous scroll or one-row-per-screen. Either direction keeps the
    /// reading position: paged mode tracks the current row, and returning to
    /// continuous scrolls the list back to that same row.
    pub open spec fn set_continuous(self, continuous: bool) -> Model {
        if self.continuous == continuous {
            self
        } else {
            (if continuous {
                self.enter_continuous()
            } else {
                self.enter_paged()
            }).reapply_scale().update_status().update_current_page()
        }
    }

    /// Sets the spread mode (0 = single, 1 = odd, 2 = even) and rebuilds rows.
    pub open spec fn set_spread(self, mode: int) -> Model {
        let spread = if mode == 1 {
            Spread::Odd
        } else if mode == 2 {
            Spread::Even
        } else {
            Spread::Single
        };
        self.build_layout(spread).reapply_scale().update_status().update_current_page()
    }

    /// Follows the list as it is scrolled by the user.
    pub open spec fn scrolled(self, offset: int) -> Model {
        if self.specs().len() == 0 {
            self
        } else {
            Model {
                scroll: max(offset, 0),
                current_row: min(nearest_row(offset, self.pitch()), self.last_row()),
                ..self
            }.update_current_page().request_visible(false)
        }
    }

    /// Navigates to a 0-based page; out of range, to the nearest there is.
    pub open spec fn nav_to_page(self, page: int) -> Model {
        if self.pages.len() == 0 {
            self
        } else {
            self.scroll_to_row(page_slot(self.spread, clamp(page, 0, self.pages.len() - 1)).0)
        }
    }

    /// Jumps to a 1-based page typed into the toolbar field. Invalid input is
    /// ignored.
    pub open spec fn go_to_page(self, text: Seq<char>) -> Model {
        match integer(trimmed(text)) {
            Some(requested) => self.nav_to_page(requested - 1),
            None => self,
        }
    }

    /// Installs a rendered thumbnail.
    pub open spec fn on_thumbnail_rendered(self, page: int, image: u64) -> Model {
        if 0 <= page < self.pages.len() {
            Model {
                thumb_images: self.thumb_images.update(page, Some(image)),
                thumb_rows: with_entry(
                    self.thumb_rows,
                    page_slot(self.spread, page),
                    entry(self.pages, page, Some(image)),
                ),
                ..self
            }
        } else {
            self
        }
    }

    /// Requests the thumbnails of a row's pages.
    pub open spec fn request_thumbnail_row(self, row: int) -> Model {
        if max(row, 0) < self.specs().len() {
            let spec = self.specs()[max(row, 0)];
            let left = self.ask(Command::Thumbnail(spec.left as i32));
            match spec.right {
                Some(right) => left.ask(Command::Thumbnail(right as i32)),
                None => left,
            }
        } else {
            self
        }
    }

    /// Arrow up/down (dir -1/+1). Continuous mode always scrolls; paged mode
    /// scrolls within a tall page and moves to the next page at the edge.
    pub open spec fn nav_line(self, dir: int) -> Model {
        if self.continuous {
            self.scroll_by(dir * SCROLL_STEP)
        } else {
            self.paged_scroll(0, -(dir * SCROLL_STEP), false)
        }
    }

    /// Page up/down (dir -1/+1): to the start of the previous/next page.
    pub open spec fn nav_page(self, dir: int) -> Model {
        if self.specs().len() == 0 {
            self
        } else {
            self.scroll_to_row(self.jump_target(dir))
        }
    }

    /// Home: start of the first page.
    pub open spec fn nav_home(self) -> Model {
        self.scroll_to_row(0)
    }

    /// End: the very bottom of the document, so the last page is fully visible.
    /// Paged mode just shows the last row. Either way the toolbar shows the last page,
    /// also where the whole document is in view and nothing scrolls.
    pub open spec fn nav_end(self) -> Model {
        if self.specs().len() == 0 {
            self
        } else {
            let moved = Model {
                current_row: self.last_row(),
                scroll: if self.continuous { self.scroll_limit() } else { 0 },
                ..self
            };
            (if self.continuous {
                moved.scroll_list(-self.scroll_limit()).request_current_row()
            } else {
                Model { paged_x: 0, paged_y: 0, ..moved }.show_row()
            }).show_number(self.pages.len() as int)
        }
    }

    /// Paged-mode wheel handling: scroll within the current page, and move to the
    /// previous/next page only once the top/bottom edge is reached. Shift makes a
    /// vertical wheel scroll horizontally. A downward/rightward wheel carries a
    /// negative delta.
    pub open spec fn paged_scroll(self, delta_x: int, delta_y: int, shift: bool) -> Model {
        let across = if shift { -delta_y } else { -delta_x };
        let down = if shift { 0 } else { -delta_y };
        let slid = Model {
            paged_x: clamp(self.paged_x + across, 0, self.paged_limit().0),
            ..self
        };
        if down > 0 && self.paged_y >= self.paged_limit().1 - MICRO / 2 {
            slid.paged_step_page(1)
        } else if down < 0 && self.paged_y <= MICRO / 2 {
            slid.paged_step_page(-1)
        } else {
            Model {
                paged_y: clamp(self.paged_y + down, 0, self.paged_limit().1),
                ..slid
            }.push_paged_offsets()
        }
    }

    /// Hands the collected commands over.
    pub open spec fn without_commands(self) -> Model {
        Model { commands: Seq::empty(), ..self }
    }
}

}
