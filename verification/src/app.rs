//! The application: which document is open, and what each event does to it.

use vstd::prelude::*;
use vstd::string::*;

use crate::layout::PageSize;
use crate::model::{FitMode, Model};
use crate::outline::{flatten_outline, flattened, levels, lines, Outline, OutlineItem};
use crate::path::{file_name, final_component};
use crate::viewer::Viewer;

verus! {

/// What the window reports.
pub enum Event {
    /// A row came into view for the first time.
    RequestRenderRow { row: i32 },
    /// The render worker finished a page.
    PageRendered { page: i32, image: u64 },
    ViewportResized { width: i64, height: i64, scale_factor: u32 },
    ZoomIn,
    ZoomOut,
    ZoomReset,
    FitWidth,
    FitPage,
    ToggleContinuous,
    SetContinuous { continuous: bool },
    /// The list was scrolled by the user.
    Scrolled { offset: i128 },
    /// A page number was typed into the toolbar.
    GoToPage { text: String },
    SetSpread { mode: i32 },
    /// An arrow key.
    NavLine { dir: i32 },
    /// Page up or down.
    NavPage { dir: i32 },
    NavHome,
    NavEnd,
    /// The wheel was turned in paged mode.
    PagedScroll { delta_x: i64, delta_y: i64, shift: bool },
    /// A bookmark or thumbnail was clicked.
    GoToPageIndex { page: i32 },
    /// A row of the thumbnail sidebar came into view.
    RequestThumbnailRow { row: i32 },
    /// The thumbnail worker finished a page.
    ThumbnailRendered { page: i32, image: u64 },
    ToggleSidebar,
}

/// The viewer after a report of the window or of a worker.
#[verifier::opaque]
pub open spec fn after_report(viewer: Model, event: Event) -> Model {
    match event {
        Event::RequestRenderRow { row } => viewer.request_render_row(row as int),
        Event::PageRendered { page, image } => viewer.on_page_rendered(page as int, image),
        Event::RequestThumbnailRow { row } => viewer.request_thumbnail_row(row as int),
        Event::ThumbnailRendered { page, image } => viewer.on_thumbnail_rendered(
            page as int,
            image,
        ),
        _ => viewer,
    }
}

/// The viewer after a change of the zoom or of the viewport.
#[verifier::opaque]
pub open spec fn after_scaling(viewer: Model, event: Event) -> Model {
    match event {
        Event::ViewportResized { width, height, scale_factor } => viewer.set_viewport(
            width as int,
            height as int,
            scale_factor as int,
        ),
        Event::ZoomIn => viewer.zoom_in(),
        Event::ZoomOut => viewer.zoom_out(),
        Event::ZoomReset => viewer.zoom_reset(),
        Event::FitWidth => viewer.fit_to(FitMode::Width),
        Event::FitPage => viewer.fit_to(FitMode::Page),
        _ => viewer,
    }
}

/// The viewer after a change of the reading or spread mode.
#[verifier::opaque]
pub open spec fn after_switching(viewer: Model, event: Event) -> Model {
    match event {
        Event::ToggleContinuous => viewer.set_continuous(!viewer.continuous),
        Event::SetContinuous { continuous } => viewer.set_continuous(continuous),
        Event::SetSpread { mode } => viewer.set_spread(mode as int),
        _ => viewer,
    }
}

/// The viewer after a jump to a page.
#[verifier::opaque]
pub open spec fn after_jump(viewer: Model, event: Event) -> Model {
    match event {
        Event::GoToPage { text } => viewer.go_to_page(text@),
        Event::GoToPageIndex { page } => viewer.nav_to_page(page as int),
        Event::NavPage { dir } => viewer.nav_page(dir as int),
        Event::NavHome => viewer.nav_home(),
        Event::NavEnd => viewer.nav_end(),
        _ => viewer,
    }
}

/// The viewer after scrolling.
#[verifier::opaque]
pub open spec fn after_scrolling(viewer: Model, event: Event) -> Model {
    match event {
        Event::Scrolled { offset } => viewer.scrolled(offset as int),
        Event::NavLine { dir } => viewer.nav_line(dir as int),
        Event::PagedScroll { delta_x, delta_y, shift } => viewer.paged_scroll(
            delta_x as int,
            delta_y as int,
            shift,
        ),
        _ => viewer,
    }
}

/// The viewer of the open document after an event.
pub open spec fn respond(viewer: Model, event: Event) -> Model {
    match event {
        Event::RequestRenderRow { .. } => after_report(viewer, event),
        Event::PageRendered { .. } => after_report(viewer, event),
        Event::RequestThumbnailRow { .. } => after_report(viewer, event),
        Event::ThumbnailRendered { .. } => after_report(viewer, event),
        Event::ViewportResized { .. } => after_scaling(viewer, event),
        Event::ZoomIn => after_scaling(viewer, event),
        Event::ZoomOut => after_scaling(viewer, event),
        Event::ZoomReset => after_scaling(viewer, event),
        Event::FitWidth => after_scaling(viewer, event),
        Event::FitPage => after_scaling(viewer, event),
        Event::ToggleContinuous => after_switching(viewer, event),
        Event::SetContinuous { .. } => after_switching(viewer, event),
        Event::SetSpread { .. } => after_switching(viewer, event),
        Event::GoToPage { .. } => after_jump(viewer, event),
        Event::GoToPageIndex { .. } => after_jump(viewer, event),
        Event::NavPage { .. } => after_jump(viewer, event),
        Event::NavHome => after_jump(viewer, event),
        Event::NavEnd => after_jump(viewer, event),
        Event::Scrolled { .. } => after_scrolling(viewer, event),
        Event::NavLine { .. } => after_scrolling(viewer, event),
        Event::PagedScroll { .. } => after_scrolling(viewer, event),
        Event::ToggleSidebar => viewer,
    }
}

/// The page whose image an event makes superfluous.
pub open spec fn dropped_image(viewer: Model, event: Event) -> Option<usize> {
    match event {
        Event::PageRendered { page, image } => if 0 <= page < viewer.pages.len() {
            viewer.evicted(page as int)
        } else {
            None
        },
        _ => None,
    }
}

/// Hands a report of the window or of a worker to the viewer. Returns the page whose
/// image is no longer needed, if any.
fn take_report(viewer: &mut Viewer, event: &Event) -> (dropped: Option<usize>)
    requires
        old(viewer).wf(),
    ensures
        final(viewer).wf(),
        final(viewer)@ == after_report(old(viewer)@, *event),
        dropped == dropped_image(old(viewer)@, *event),
{
    proof {
        reveal(after_report);
    }
    match event {
        Event::RequestRenderRow { row } => {
            viewer.request_render_row(*row);
            None
        },
        Event::PageRendered { page, image } => viewer.on_page_rendered(*page, *image),
        Event::RequestThumbnailRow { row } => {
            viewer.request_thumbnail_row(*row);
            None
        },
        Event::ThumbnailRendered { page, image } => {
            viewer.on_thumbnail_rendered(*page, *image);
            None
        },
        _ => None,
    }
}

/// Hands a change of the zoom or of the viewport to the viewer.
fn take_scaling(viewer: &mut Viewer, event: &Event)
    requires
        old(viewer).wf(),
        old(viewer)@.generation < u64::MAX,
    ensures
        final(viewer).wf(),
        final(viewer)@ == after_scaling(old(viewer)@, *event),
{
    proof {
        reveal(after_scaling);
    }
    match event {
        Event::ViewportResized { width, height, scale_factor } => viewer.set_viewport(
            *width,
            *height,
            *scale_factor,
        ),
        Event::ZoomIn => viewer.zoom_in(),
        Event::ZoomOut => viewer.zoom_out(),
        Event::ZoomReset => viewer.zoom_reset(),
        Event::FitWidth => viewer.fit_width(),
        Event::FitPage => viewer.fit_page(),
        _ => {},
    }
}

/// Hands a change of the reading or spread mode to the viewer.
fn take_switching(viewer: &mut Viewer, event: &Event)
    requires
        old(viewer).wf(),
        old(viewer)@.generation + 2 <= u64::MAX,
    ensures
        final(viewer).wf(),
        final(viewer)@ == after_switching(old(viewer)@, *event),
{
    proof {
        reveal(after_switching);
    }
    match event {
        Event::ToggleContinuous => viewer.toggle_continuous(),
        Event::SetContinuous { continuous } => viewer.set_continuous(*continuous),
        Event::SetSpread { mode } => viewer.set_spread(*mode),
        _ => {},
    }
}

/// Hands a jump to the viewer.
fn take_jump(viewer: &mut Viewer, event: &Event)
    requires
        old(viewer).wf(),
        old(viewer)@.generation < u64::MAX,
    ensures
        final(viewer).wf(),
        final(viewer)@ == after_jump(old(viewer)@, *event),
{
    proof {
        reveal(after_jump);
    }
    match event {
        Event::GoToPage { text } => viewer.go_to_page(text.as_str()),
        Event::GoToPageIndex { page } => viewer.nav_to_page(*page),
        Event::NavPage { dir } => viewer.nav_page(*dir),
        Event::NavHome => viewer.nav_home(),
        Event::NavEnd => viewer.nav_end(),
        _ => {},
    }
}

/// Hands scrolling to the viewer.
fn take_scrolling(viewer: &mut Viewer, event: &Event)
    requires
        old(viewer).wf(),
        old(viewer)@.generation < u64::MAX,
    ensures
        final(viewer).wf(),
        final(viewer)@ == after_scrolling(old(viewer)@, *event),
{
    proof {
        reveal(after_scrolling);
    }
    match event {
        Event::Scrolled { offset } => viewer.scrolled(*offset),
        Event::NavLine { dir } => viewer.nav_line(*dir),
        Event::PagedScroll { delta_x, delta_y, shift } => viewer.paged_scroll(
            *delta_x,
            *delta_y,
            *shift,
        ),
        _ => {},
    }
}

/// The message for a document that could not be opened.
pub open spec fn open_failure(path: Seq<char>, error: Seq<char>) -> Seq<char> {
    "Failed to open "@ + path + ": "@ + error
}

/// The message for a document that could not be opened.
pub fn open_failure_text(path: &str, error: &str) -> (message: String)
    ensures
        message@ == open_failure(path@, error@),
        message@ == "Failed to open "@ + path@ + ": "@ + error@,
{
    let mut message: String = String::from_str("Failed to open ");
    message.append(path);
    message.append(": ");
    message.append(error);
    message
}

/// What the window's title says of the document at a path: its file name; the path,
/// where it has none.
pub open spec fn title_of(path: Seq<char>) -> Seq<char> {
    match final_component(path) {
        Some(name) => name,
        None => path,
    }
}

/// The viewer of a freshly opened document. It never sees the window being
/// resized if the window is already shown, so the last size is replayed.
pub open spec fn opened(pages: Seq<PageSize>, viewport: (i64, i64), scale_factor: u32) -> Model {
    let fresh = Model::new(pages, scale_factor as int);
    if viewport.0 > 0 && viewport.1 > 0 {
        fresh.set_viewport(viewport.0 as int, viewport.1 as int, scale_factor as int)
    } else {
        fresh
    }
}

/// The open document, and what outlives it. The viewer is swapped out (not the
/// window) when a new document is opened.
pub struct App {
    pub viewer: Option<Viewer>,
    /// Last viewport size reported by the window.
    pub viewport: (i64, i64),
    pub title: String,
    pub outline: Vec<OutlineItem>,
    pub sidebar_open: bool,
}

/// What an event does: the viewer that is open takes it, if there is one, and nothing
/// else changes but the viewport size, when the window reports it, and the sidebar,
/// when it is toggled.
pub open spec fn handled(before: App, event: Event, after: App, dropped: Option<usize>) -> bool {
    &&& after.title == before.title
    &&& after.outline == before.outline
    &&& after.sidebar_open == (if event is ToggleSidebar {
        !before.sidebar_open
    } else {
        before.sidebar_open
    })
    &&& after.viewport == (match event {
        Event::ViewportResized { width, height, .. } => (width, height),
        _ => before.viewport,
    })
    &&& match before.viewer {
        Some(viewer) => {
            &&& after.viewer matches Some(next) && next@ == respond(viewer@, event)
            &&& dropped == dropped_image(viewer@, event)
        },
        None => {
            &&& after.viewer is None
            &&& dropped is None
        },
    }
}

impl App {
    pub open spec fn wf(&self) -> bool {
        self.viewer matches Some(viewer) ==> viewer.wf()
    }

    /// The view epochs that an event may use up are there.
    pub open spec fn has_epochs(&self) -> bool {
        self.viewer matches Some(viewer) ==> viewer@.generation + 2 <= u64::MAX
    }

    /// Whether the view epochs that an event may use up are there.
    pub fn can_handle(&self) -> (can: bool)
        ensures
            can == self.has_epochs(),
    {
        match &self.viewer {
            Some(viewer) => viewer.generation() <= 0xffff_ffff_ffff_fffd,
            None => true,
        }
    }

    /// Hands an event to the viewer of the open document, if there is one. Returns
    /// the page whose image is no longer needed, if any.
    pub fn handle(&mut self, event: Event) -> (dropped: Option<usize>)
        requires
            old(self).wf(),
            old(self).has_epochs(),
        ensures
            final(self).wf(),
            handled(*old(self), event, *final(self), dropped),
    {
        match &event {
            Event::ViewportResized { width, height, .. } => {
                self.viewport = (*width, *height);
            },
            Event::ToggleSidebar => {
                self.sidebar_open = !self.sidebar_open;
            },
            _ => {},
        }
        let mut dropped: Option<usize> = None;
        match self.viewer.take() {
            None => {},
            Some(mut viewer) => {
                match &event {
                    Event::RequestRenderRow { .. }
                    | Event::PageRendered { .. }
                    | Event::RequestThumbnailRow { .. }
                    | Event::ThumbnailRendered { .. } => {
                        dropped = take_report(&mut viewer, &event);
                    },
                    Event::ViewportResized { .. }
                    | Event::ZoomIn
                    | Event::ZoomOut
                    | Event::ZoomReset
                    | Event::FitWidth
                    | Event::FitPage => take_scaling(&mut viewer, &event),
                    Event::ToggleContinuous
                    | Event::SetContinuous { .. }
                    | Event::SetSpread { .. } => take_switching(&mut viewer, &event),
                    Event::GoToPage { .. }
                    | Event::GoToPageIndex { .. }
                    | Event::NavPage { .. }
                    | Event::NavHome
                    | Event::NavEnd => take_jump(&mut viewer, &event),
                    Event::Scrolled { .. }
                    | Event::NavLine { .. }
                    | Event::PagedScroll { .. } => take_scrolling(&mut viewer, &event),
                    Event::ToggleSidebar => {},
                }
                self.viewer = Some(viewer);
            },
        }
        dropped
    }

    /// Opens a document whose page sizes were read, replacing any document already
    /// open. If they could not be read, or there are none, the document that is
    /// open (if any) is kept, and the message to show is returned.
    pub fn open(
        &mut self,
        path: &str,
        sizes: Result<Vec<PageSize>, String>,
        outline: &Vec<Outline>,
        scale_factor: u32,
    ) -> (refused: Option<String>)
        requires
            old(self).wf(),
            sizes matches Ok(pages) ==> pages@.len() <= i32::MAX,
            levels(outline@) <= i32::MAX,
        ensures
            final(self).wf(),
            final(self).viewport == old(self).viewport,
            final(self).sidebar_open == old(self).sidebar_open,
            match sizes {
                Ok(pages) if pages@.len() > 0 => {
                    &&& refused is None
                    &&& final(self).viewer matches Some(viewer) && viewer@ == opened(
                        pages@,
                        old(self).viewport,
                        scale_factor,
                    )
                    &&& lines(final(self).outline@) == flattened(outline@, 0)
                    &&& final(self).title@ == title_of(path@)
                    &&& final_component(path@) matches Some(name) ==> final(self).title@ == name
                    &&& final_component(path@) is None ==> final(self).title@ == path@
                },
                Ok(_) => {
                    &&& *final(self) == *old(self)
                    &&& refused matches Some(message) && message@ == "Document has no pages."@
                },
                Err(error) => {
                    &&& *final(self) == *old(self)
                    &&& refused matches Some(message) && message@ == open_failure(path@, error@)
                },
            },
    {
        let pages: Vec<PageSize> = match sizes {
            Ok(pages) => pages,
            Err(error) => {
                return Some(open_failure_text(path, error.as_str()));
            },
        };
        if pages.len() == 0 {
            return Some(String::from_str("Document has no pages."));
        }
        self.outline = flatten_outline(outline);
        let mut viewer: Viewer = Viewer::new(pages, scale_factor);
        // Replay the current viewport so the fresh viewer lays out immediately
        // instead of waiting for a resize.
        let (width, height) = self.viewport;
        if width > 0 && height > 0 {
            viewer.set_viewport(width, height, scale_factor);
        }
        self.title = match file_name(path) {
            Some(name) => name,
            None => String::from_str(path),
        };
        self.viewer = Some(viewer);
        None
    }
}

/// What the program starts with: nothing is open. Returns the application, and
/// what to do first: open the document that was asked for, or show a hint that
/// one can be opened.
pub fn run(path: Option<String>) -> (start: (App, Result<String, String>))
    ensures
        start.0.wf(),
        start.0.viewer is None,
        start.0.viewport == (0i64, 0i64),
        start.0.title@ == Seq::<char>::empty(),
        start.0.outline@.len() == 0,
        !start.0.sidebar_open,
        match path {
            Some(path) => start.1 == Ok::<String, String>(path),
            None => start.1 matches Err(hint) && hint@ == "Open a PDF to get started."@,
        },
{
    let app: App = App {
        viewer: None,
        viewport: (0, 0),
        title: String::new(),
        outline: Vec::new(),
        sidebar_open: false,
    };
    match path {
        Some(path) => (app, Ok(path)),
        None => (app, Err(String::from_str("Open a PDF to get started."))),
    }
}

}
