//! Render-request prioritization.

use melkkipdf::model::Command;
use melkkipdf::testing::Harness;

fn pt(points: f64) -> u64 {
    (points * 1e6).round() as u64
}

fn px(pixels: f64) -> i64 {
    (pixels * 1e6).round() as i64
}

/// A page arriving in paged mode refreshes the shown row, also while another page
/// is evicted.
#[test]
fn paged_render_does_not_reenter_borrow() {
    let mut h = Harness::uniform(5, pt(600.0), pt(800.0));

    // Switch to paged mode, then deliver renders - including enough to force
    // the eviction path, which also calls back into the viewer.
    h.viewer.toggle_continuous();
    for page in 0..5 {
        h.viewer.on_page_rendered(page, 1);
    }
    h.viewer.nav_page(1);
    h.viewer.on_page_rendered(2, 1);
}

#[test]
fn scrolling_requests_visible_rows_top_first() {
    let mut h = Harness::uniform(100, pt(600.0), pt(800.0));
    h.viewport(px(1000.0), px(900.0));

    // Position near page 50, then simulate the scroll callback the list fires.
    h.viewer.go_to_page("50");
    let offset = -h.scroll_y();
    let _ = h.take_render_requests_full(); // clear
    h.viewer.scrolled(offset);

    let requests = h.take_render_requests_full();
    assert!(!requests.is_empty(), "scrolling should request visible pages");

    // The visible (non-prefetch) pages...
    let visible: Vec<i32> = requests
        .iter()
        .filter(|(_, _, prefetch)| !prefetch)
        .map(|(page, ..)| *page)
        .collect();
    // ...start at the topmost page (index 49 == page 50)...
    assert_eq!(visible[0], 49, "lowest-numbered visible page requested first");
    // ...and are in ascending (top-to-bottom) order.
    let mut ascending = visible.clone();
    ascending.sort();
    assert_eq!(visible, ascending, "visible requests should be ordered top-first");
}

#[test]
fn idle_prefetches_neighbors_at_lower_priority() {
    let mut h = Harness::uniform(100, pt(600.0), pt(800.0));
    h.viewport(px(1000.0), px(900.0));
    h.viewer.go_to_page("50"); // row/page index 49
    let offset = -h.scroll_y();
    let _ = h.take_render_requests_full();
    h.viewer.scrolled(offset);

    let requests = h.take_render_requests_full();
    let prefetched: Vec<i32> = requests
        .iter()
        .filter(|(_, _, prefetch)| *prefetch)
        .map(|(page, ..)| *page)
        .collect();

    // Neighbors on both sides are prefetched (previous ~4 and next few pages).
    assert!(prefetched.contains(&45), "previous pages prefetched, got {prefetched:?}");
    assert!(prefetched.iter().any(|&p| p > 51), "next pages prefetched, got {prefetched:?}");
    // Every prefetch is within a few rows of the visible range.
    assert!(prefetched.iter().all(|&p| (45..=56).contains(&p)), "prefetch stays local");
}

#[test]
fn paged_mode_prefetches_neighbors() {
    let mut h = Harness::uniform(100, pt(600.0), pt(800.0));
    h.viewport(px(1000.0), px(900.0));
    h.viewer.set_continuous(false);
    let _ = h.take_render_requests_full();

    h.viewer.go_to_page("50"); // page/row index 49
    let requests = h.take_render_requests_full();

    let visible: Vec<i32> = requests
        .iter()
        .filter(|(_, _, prefetch)| !prefetch)
        .map(|(page, ..)| *page)
        .collect();
    let prefetched: Vec<i32> = requests
        .iter()
        .filter(|(_, _, prefetch)| *prefetch)
        .map(|(page, ..)| *page)
        .collect();

    assert!(visible.contains(&49), "current page requested at high priority");
    assert!(
        prefetched.contains(&45) && prefetched.contains(&53),
        "paged mode should prefetch neighbors on both sides, got {prefetched:?}"
    );
}

#[test]
fn each_scroll_is_a_newer_epoch_so_stale_requests_are_dropped() {
    let mut h = Harness::uniform(100, pt(600.0), pt(800.0));
    h.viewport(px(1000.0), px(900.0));

    h.viewer.go_to_page("10");
    let near_top = -h.scroll_y();
    h.viewer.go_to_page("70");
    let far_down = -h.scroll_y();
    let _ = h.take_render_requests_full();

    h.viewer.scrolled(near_top);
    let first = h.take_render_requests_full();
    h.viewer.scrolled(far_down);
    let second = h.take_render_requests_full();

    let first_epoch = first.iter().map(|(_, epoch, _)| *epoch).max().unwrap();
    let second_epoch = second.iter().map(|(_, epoch, _)| *epoch).max().unwrap();
    // A later scroll carries a newer epoch; the worker renders only the newest,
    // so the earlier (now off-screen) requests are dropped.
    assert!(second_epoch > first_epoch, "later scroll must use a newer epoch");
}

#[test]
fn scrolling_does_not_rerequest_already_rendered_pages() {
    let mut h = Harness::uniform(100, pt(600.0), pt(800.0));
    h.viewport(px(1000.0), px(900.0));
    h.viewer.go_to_page("10");
    let offset = -h.scroll_y();

    // First scroll requests the visible pages.
    let _ = h.take_render_requests();
    h.viewer.scrolled(offset);
    let first = h.take_render_requests();
    assert!(!first.is_empty());

    // Pretend those pages finished rendering.
    for &page in &first {
        h.viewer.on_page_rendered(page, 1);
    }

    // Scrolling to the same spot again should not re-request rendered pages.
    h.viewer.scrolled(offset);
    let second = h.take_render_requests();
    assert!(
        second.is_empty(),
        "already-rendered visible pages should not be re-requested, got {second:?}"
    );
}

#[test]
fn the_49th_image_evicts_the_first() {
    let mut h = Harness::uniform(60, pt(600.0), pt(800.0));
    for page in 0..48 {
        assert_eq!(h.viewer.on_page_rendered(page, 100 + page as u64), None);
    }
    assert_eq!(h.viewer.row(0).unwrap().left.image, Some(100));
    assert_eq!(h.viewer.on_page_rendered(48, 148), Some(0));
    let first = h.viewer.row(0).unwrap().left;
    assert_eq!(first.image, None);
    assert_eq!((first.page, first.width_pt, first.height_pt), (0, pt(600.0), pt(800.0)));
    assert_eq!(h.viewer.row(48).unwrap().left.image, Some(148));
    // Rendering a page again takes a second place: its first place goes first.
    assert_eq!(h.viewer.on_page_rendered(2, 7), Some(1));
    assert_eq!(h.viewer.on_page_rendered(3, 7), None);
    assert_eq!(h.viewer.row(2).unwrap().left.image, Some(7));
    // There is no such page.
    assert_eq!(h.viewer.on_page_rendered(-1, 9), None);
    assert_eq!(h.viewer.on_page_rendered(60, 9), None);
}

#[test]
fn an_image_goes_to_its_side_of_the_row() {
    let mut h = Harness::uniform(5, pt(600.0), pt(800.0));
    h.viewer.set_spread(2);
    h.viewer.set_continuous(false);
    h.viewer.go_to_page("3");
    h.viewer.on_page_rendered(2, 77);
    let row = h.viewer.row(1).unwrap();
    assert_eq!(row.left.image, None);
    assert_eq!(row.right.image, Some(77));
    // The row on show is kept up to date.
    assert_eq!(h.viewer.window().current_row_content, row);
    // A new layout starts without images, but keeps thumbnails.
    h.viewer.on_thumbnail_rendered(2, 55);
    assert_eq!(h.viewer.thumb_row(1).unwrap().right.image, Some(55));
    h.viewer.set_spread(1);
    assert_eq!(h.viewer.row(1).unwrap().left.image, None);
    assert_eq!(h.viewer.thumb_row(1).unwrap().left.image, Some(55));
    assert_eq!(h.viewer.row_of(3), Some(1));
    assert_eq!(h.viewer.row_of(5), None);
}

#[test]
fn requests_carry_the_scale_of_the_view() {
    let mut h = Harness::uniform(3, pt(600.0), pt(800.0));
    h.viewer.zoom_reset();
    h.viewer.set_viewport(px(1000.0), px(900.0), 2_000_000);
    h.viewer.take_commands();
    h.viewer.request_render_row(1);
    match h.viewer.take_commands()[..] {
        [Command::Render(request)] => {
            assert_eq!(request.page, 1);
            assert_eq!(request.scale, 2_666_666);
            assert!(!request.prefetch);
        }
        ref other => panic!("{other:?}"),
    }
    // No such row: the first one for a negative number, none past the end.
    h.viewer.request_render_row(-4);
    assert_eq!(h.take_render_requests(), vec![0]);
    h.viewer.request_render_row(3);
    assert!(h.take_render_requests().is_empty());
}

#[test]
fn thumbnails_are_requested_by_row() {
    let mut h = Harness::uniform(5, pt(600.0), pt(800.0));
    h.viewer.set_spread(1);
    h.viewer.take_commands();
    h.viewer.request_thumbnail_row(1);
    h.viewer.request_thumbnail_row(2);
    h.viewer.request_thumbnail_row(3);
    assert_eq!(
        h.viewer.take_commands(),
        vec![Command::Thumbnail(2), Command::Thumbnail(3), Command::Thumbnail(4)]
    );
}

#[test]
fn a_zoom_requests_everything_visible_again() {
    let mut h = Harness::uniform(100, pt(600.0), pt(800.0));
    h.viewport(px(1000.0), px(900.0));
    for page in 0..10 {
        h.viewer.on_page_rendered(page, 1);
    }
    let _ = h.take_render_requests();
    h.viewer.scrolled(0);
    assert!(h.take_render_requests().is_empty());
    h.viewer.zoom_in();
    assert!(h.take_render_requests().starts_with(&[0, 1]));
}
