//! Paged-mode within-page scrolling.

use melkkipdf::testing::Harness;

fn pt(points: f64) -> u64 {
    (points * 1e6).round() as u64
}

fn px(pixels: f64) -> i64 {
    (pixels * 1e6).round() as i64
}

fn offset_y(h: &Harness) -> f64 {
    h.viewer.window().paged_offset_y as f64 / 1e6
}

/// Paged mode with the page taller than the viewport (so there is room to
/// scroll within it before paging).
fn paged_tall(count: usize) -> Harness {
    let mut harness = Harness::uniform(count, pt(600.0), pt(800.0));
    harness.viewport(px(1000.0), px(400.0));
    harness.viewer.set_continuous(false);
    harness.viewer.fit_width(); // ~1300px tall page in a 400px viewport
    harness.viewer.nav_home();
    harness
}

#[test]
fn scrolling_stays_within_the_page() {
    let mut h = paged_tall(20);
    assert_eq!(h.current_page(), 1);
    assert!((offset_y(&h) - 0.0).abs() < 0.5, "starts at the top");

    // A downward wheel (negative delta_y) scrolls down within the page.
    h.viewer.paged_scroll(px(0.0), px(-120.0), false);
    assert_eq!(h.current_page(), 1, "must not page while there is room to scroll");
    assert!(offset_y(&h) < 0.0, "content scrolled up");
}

#[test]
fn paging_forward_lands_at_the_top_of_the_next_page() {
    let mut h = paged_tall(20);
    // One huge scroll clamps at the page bottom without paging...
    h.viewer.paged_scroll(px(0.0), px(-100000.0), false);
    assert_eq!(h.current_page(), 1, "a single scroll clamps at the bottom, no page yet");
    assert!(offset_y(&h) < -0.5, "scrolled to the bottom of page 1");
    // ...and only the next downward scroll moves to the next page, at its top.
    h.viewer.paged_scroll(px(0.0), px(-120.0), false);
    assert_eq!(h.current_page(), 2, "scrolling at the bottom edge pages forward");
    assert!((offset_y(&h) - 0.0).abs() < 0.5, "lands at the top of page 2");
}

#[test]
fn scrolling_up_at_the_top_lands_at_the_bottom_of_the_previous_page() {
    let mut h = paged_tall(20);
    h.viewer.nav_page(1); // page 2, at its top
    assert_eq!(h.current_page(), 2);
    // At the top of page 2, scrolling up goes back to page 1...
    h.viewer.paged_scroll(px(0.0), px(120.0), false);
    assert_eq!(h.current_page(), 1);
    // ...landing at the bottom of page 1, not its top.
    assert!(offset_y(&h) < -0.5, "should land at the bottom of the previous page");
}

#[test]
fn shift_wheel_scrolls_horizontally_without_paging() {
    let mut h = Harness::uniform(20, pt(600.0), pt(800.0));
    h.viewport(px(1000.0), px(800.0));
    h.viewer.set_continuous(false);
    h.viewer.fit_width();
    h.viewer.zoom_in();
    h.viewer.zoom_in(); // page now wider than the viewport
    h.viewer.nav_home();

    let before = h.viewer.window().paged_offset_x;
    // Shift turns a vertical wheel into horizontal movement.
    h.viewer.paged_scroll(px(0.0), px(-120.0), true);
    assert!(h.viewer.window().paged_offset_x < before, "shift-scroll moved horizontally");
    assert_eq!(h.current_page(), 1, "horizontal scrolling never pages");
}

#[test]
fn a_page_that_fits_pages_immediately() {
    let mut h = Harness::uniform(20, pt(600.0), pt(800.0));
    h.viewport(px(1000.0), px(1400.0)); // tall viewport: the whole page fits
    h.viewer.set_continuous(false);
    h.viewer.fit_page();
    h.viewer.nav_home();
    // Nothing to scroll within, so a downward wheel pages straight away.
    h.viewer.paged_scroll(px(0.0), px(-120.0), false);
    assert_eq!(h.current_page(), 2);
}

#[test]
fn content_smaller_than_the_view_is_centered() {
    let mut h = Harness::uniform(3, pt(300.0), pt(600.0));
    h.viewport(px(1000.0), px(1000.0));
    h.viewer.set_continuous(false);
    h.viewer.zoom_reset();
    let window = h.viewer.window();
    assert_eq!(window.paged_content_w, 400_000_000);
    assert_eq!(window.paged_content_h, 800_000_000);
    assert_eq!(window.paged_offset_x, 300_000_000);
    assert_eq!(window.paged_offset_y, 100_000_000);
    // A spread is two pages wide, and a gap.
    h.viewer.set_spread(1);
    assert_eq!(h.viewer.window().paged_content_w, 804_000_000);
}

#[test]
fn the_wheel_stops_at_the_first_and_last_page() {
    let mut h = paged_tall(2);
    h.viewer.paged_scroll(0, px(50.0), false);
    assert_eq!(h.current_page(), 1);
    h.viewer.nav_end();
    assert_eq!(h.current_page(), 2);
    h.viewer.paged_scroll(0, px(-100000.0), false);
    h.viewer.paged_scroll(0, px(-100000.0), false);
    assert_eq!(h.current_page(), 2);
    assert!(offset_y(&h) < -0.5);
}

#[test]
fn extreme_deltas_do_no_harm() {
    let mut h = paged_tall(4);
    h.viewer.paged_scroll(i64::MIN, i64::MIN, false);
    h.viewer.paged_scroll(i64::MAX, i64::MAX, true);
    h.viewer.nav_page(i32::MAX);
    assert_eq!(h.current_page(), 4);
    h.viewer.nav_page(i32::MIN);
    assert_eq!(h.current_page(), 1);
}
