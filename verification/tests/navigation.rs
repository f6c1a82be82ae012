//! Keyboard / wheel navigation behavior.

use melkkipdf::testing::Harness;

fn pt(points: f64) -> u64 {
    (points * 1e6).round() as u64
}

fn px(pixels: f64) -> i64 {
    (pixels * 1e6).round() as i64
}

fn scroll_y(h: &Harness) -> f64 {
    h.scroll_y() as f64 / 1e6
}

/// A harness with a known viewport, so fit and scroll math are defined.
fn setup(count: usize) -> Harness {
    let mut harness = Harness::uniform(count, pt(600.0), pt(800.0));
    harness.viewport(px(1000.0), px(900.0));
    harness
}

#[test]
fn home_goes_to_the_first_page() {
    let mut h = setup(20);
    h.viewer.nav_page(1);
    h.viewer.nav_page(1);
    h.viewer.nav_home();
    assert_eq!(h.current_page(), 1);
    assert_eq!(scroll_y(&h), 0.0);
}

#[test]
fn end_reaches_the_last_page_when_fit_to_width() {
    let mut h = setup(449);
    h.viewer.fit_width();
    h.viewer.nav_end();
    assert_eq!(h.current_page(), 449);
}

#[test]
fn end_reaches_the_last_page_when_fit_to_page() {
    let mut h = setup(449);
    h.viewer.fit_page();
    h.viewer.nav_end();
    assert_eq!(h.current_page(), 449);
}

#[test]
fn end_reaches_the_last_page_in_spread_modes() {
    let mut h = setup(449);
    h.viewer.fit_width();

    h.viewer.set_spread(2); // even
    h.viewer.nav_end();
    assert_eq!(h.current_page(), 449, "even spread End should reach the last page");

    h.viewer.set_spread(1); // odd
    h.viewer.nav_end();
    assert_eq!(h.current_page(), 449, "odd spread End should reach the last page");
}

#[test]
fn page_navigation_moves_one_page_at_a_time() {
    let mut h = setup(20);
    h.viewer.nav_home();
    assert_eq!(h.current_page(), 1);
    h.viewer.nav_page(1);
    assert_eq!(h.current_page(), 2);
    h.viewer.nav_page(1);
    assert_eq!(h.current_page(), 3);
    h.viewer.nav_page(-1);
    assert_eq!(h.current_page(), 2);
}

#[test]
fn page_navigation_clamps_at_both_ends() {
    let mut h = setup(5);
    h.viewer.nav_home();
    h.viewer.nav_page(-1);
    assert_eq!(h.current_page(), 1, "cannot page before the first page");
    h.viewer.nav_end();
    h.viewer.nav_page(1);
    assert_eq!(h.current_page(), 5, "cannot page past the last page");
}

#[test]
fn continuous_arrows_scroll_and_do_not_change_page() {
    let mut h = setup(20);
    h.viewer.fit_page(); // a whole page fits
    h.viewer.nav_home();
    assert_eq!(scroll_y(&h), 0.0);
    assert_eq!(h.current_page(), 1);

    h.viewer.nav_line(1); // arrow down
    assert!(scroll_y(&h) < 0.0, "continuous mode should scroll on arrow down");
    assert_eq!(h.current_page(), 1, "continuous scrolling must not jump pages");
}

#[test]
fn continuous_arrow_scroll_steps_are_uniform() {
    let mut h = setup(20);
    h.viewer.nav_home();
    h.viewer.nav_line(1);
    let one = scroll_y(&h);
    h.viewer.nav_line(1);
    let two = scroll_y(&h);
    assert!(one < 0.0);
    // Two steps should be exactly twice one step.
    assert!((two - 2.0 * one).abs() < 0.5, "one={one}, two={two}");
}

#[test]
fn paged_arrows_change_pages_when_the_page_fits() {
    let mut h = Harness::uniform(20, pt(600.0), pt(800.0));
    h.viewport(px(1000.0), px(1400.0)); // tall viewport: the whole page fits
    h.viewer.set_continuous(false);
    h.viewer.fit_page();
    h.viewer.nav_home();
    assert_eq!(h.current_page(), 1);
    h.viewer.nav_line(1);
    assert_eq!(h.current_page(), 2, "paged arrow down moves to the next page");
    h.viewer.nav_line(-1);
    assert_eq!(h.current_page(), 1);
}

#[test]
fn scrolling_reports_the_page_at_the_top() {
    let mut h = setup(20);
    h.viewer.fit_width();
    // Jump to page 5, capture the offset, then reproduce it as a user scroll.
    h.viewer.go_to_page("5");
    let offset = -h.scroll_y();
    h.viewer.nav_home();
    assert_eq!(h.current_page(), 1);
    h.viewer.scrolled(offset);
    assert_eq!(h.current_page(), 5);
}

#[test]
fn page_up_snaps_to_the_start_of_a_page_scrolled_into() {
    let mut h = setup(20);
    h.viewer.go_to_page("5");
    let start = h.scroll_y();
    h.viewer.nav_line(1);
    h.viewer.nav_page(-1);
    assert_eq!(h.scroll_y(), start);
    assert_eq!(h.current_page(), 5);
    h.viewer.nav_page(-1);
    assert_eq!(h.current_page(), 4);
}

#[test]
fn an_arrow_step_is_120_pixels_and_stops_at_the_ends() {
    let mut h = setup(20);
    h.viewer.nav_line(1);
    assert_eq!(h.scroll_y(), -120_000_000);
    h.viewer.nav_line(-1);
    h.viewer.nav_line(-1);
    assert_eq!(h.scroll_y(), 0);
    h.viewer.nav_end();
    let bottom = h.scroll_y();
    h.viewer.nav_line(1);
    assert_eq!(h.scroll_y(), bottom);
    assert_eq!(h.current_page(), 20);
}

#[test]
fn scrolling_rounds_to_the_nearest_row() {
    let mut h = setup(20);
    h.viewer.zoom_reset();
    let pitch = 800_000_000i128 * 4 / 3 + 16_000_000;
    h.viewer.scrolled(pitch / 2 - 1);
    assert_eq!(h.current_page(), 1);
    h.viewer.scrolled(pitch / 2 + 1);
    assert_eq!(h.current_page(), 2);
    h.viewer.scrolled(-5);
    assert_eq!(h.current_page(), 1);
    // Past the end there is only the last page.
    h.viewer.scrolled(1000 * pitch);
    assert_eq!(h.current_page(), 20);
    h.viewer.scrolled(i128::MAX);
    assert_eq!(h.current_page(), 20);
}

#[test]
fn outline_and_thumbnail_clicks_go_to_a_page_index() {
    let mut h = setup(20);
    h.viewer.set_spread(1);
    h.viewer.nav_to_page(7);
    // Page index 7 is the right page of the row that starts with page 7.
    assert_eq!(h.current_page(), 7);
    h.viewer.nav_to_page(-3);
    assert_eq!(h.current_page(), 1);
    h.viewer.nav_to_page(99);
    assert_eq!(h.viewer.window().current_page, 20);
}
