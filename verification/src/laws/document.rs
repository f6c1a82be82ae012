//! What the application keeps of the window, and hands to a document.

use vstd::prelude::*;

use super::changes::{
    law_a_new_viewer_starts_at_the_beginning, law_a_viewport_is_taken_over,
};
use super::images::{law_the_page_that_leaves_loses_its_image, shown};
use super::scale::{fitted, law_a_new_viewer_is_fitted};
use crate::app::{
    after_report, after_scaling, dropped_image, handled, opened, respond, App, Event,
};
use crate::layout::{PageSize, Spread};
use crate::model::{FitMode, Model};

verus! {

/// The size of the window is remembered as it was last reported, whether a document is
/// open or not, and an open document takes it over.
pub proof fn law_the_size_of_the_window_is_remembered(
    before: App,
    after: App,
    dropped: Option<usize>,
    width: i64,
    height: i64,
    scale_factor: u32,
)
    requires
        handled(before, Event::ViewportResized { width, height, scale_factor }, after, dropped),
    ensures
        after.viewport.0 == width,
        after.viewport.1 == height,
        dropped is None,
        after.viewer matches Some(viewer) ==> {
            &&& viewer@.view == Some((width as int, height as int))
            &&& viewer@.scale_factor == scale_factor
        },
{
    reveal(after_scaling);
    if let Some(viewer) = before.viewer {
        law_a_viewport_is_taken_over(
            viewer@,
            width as int,
            height as int,
            scale_factor as int,
        );
    }
}

/// A document that is opened is shown from its start, every page fitted, in the window
/// as it is: a size that was reported before is known to it, and nothing that was
/// rendered of another document is kept.
pub proof fn law_a_document_opens_in_the_window_as_it_is(
    pages: Seq<PageSize>,
    viewport: (i64, i64),
    scale_factor: u32,
)
    requires
        0 < pages.len() <= i32::MAX,
    ensures
        ({
            let m = opened(pages, viewport, scale_factor);
            &&& m.pages == pages
            &&& m.continuous
            &&& m.spread == Spread::Single
            &&& m.fit == FitMode::Page
            &&& m.scale_factor == scale_factor
            &&& m.scroll == 0
            &&& m.current_row == 0
            &&& m.window.current_page == 1
            &&& m.window.page_count == pages.len()
            &&& m.retained.len() == 0
            &&& fitted(m)
            &&& viewport.0 > 0 && viewport.1 > 0 ==> m.view == Some(
                (viewport.0 as int, viewport.1 as int),
            )
            &&& viewport.0 <= 0 || viewport.1 <= 0 ==> m.view is None && m.zoom == 1_000_000
        }),
{
    let fresh = Model::new(pages, scale_factor as int);
    law_a_new_viewer_starts_at_the_beginning(pages, scale_factor as int);
    law_a_new_viewer_is_fitted(pages, scale_factor as int);
    law_a_viewport_is_taken_over(
        fresh,
        viewport.0 as int,
        viewport.1 as int,
        scale_factor as int,
    );
}

/// An image is given back exactly where a rendered page makes another one lose its
/// image. No other event gives one back.
pub proof fn law_only_a_rendered_page_drops_an_image(m: Model, event: Event, other: int)
    requires
        m.wf(),
        0 <= other < m.pages.len(),
    ensures
        !(event is PageRendered) ==> dropped_image(m, event) is None,
        event is PageRendered ==> (dropped_image(m, event) == Some(other as usize) <==> shown(
            m.rows,
            m.spread,
            other,
        ).image is Some && shown(respond(m, event).rows, m.spread, other).image is None),
{
    reveal(after_report);
    if let Event::PageRendered { page, image } = event {
        if 0 <= page < m.pages.len() {
            law_the_page_that_leaves_loses_its_image(m, page as int, image, other);
        }
    }
}

/// No event opens or closes a document, or changes its title and outline. Only a report
/// of its size changes what is known of the window, and only the toggle the sidebar.
pub proof fn law_events_keep_the_document(
    before: App,
    event: Event,
    after: App,
    dropped: Option<usize>,
)
    requires
        handled(before, event, after, dropped),
    ensures
        after.title == before.title,
        after.outline == before.outline,
        after.viewer is Some <==> before.viewer is Some,
        before.viewer matches Some(viewer) ==> after.viewer.unwrap()@ == respond(viewer@, event),
        !(event is ViewportResized) ==> after.viewport == before.viewport,
        !(event is ToggleSidebar) ==> after.sidebar_open == before.sidebar_open,
        event is ToggleSidebar ==> after.sidebar_open == !before.sidebar_open,
        before.viewer matches Some(viewer) ==> dropped == dropped_image(viewer@, event),
{
}

}
