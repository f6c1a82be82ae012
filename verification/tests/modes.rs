//! Go-to-page, mode switching, and zoom/fit.

use melkkipdf::testing::Harness;

const BASE_DENSITY: f64 = 96.0 / 72.0;

fn pt(points: f64) -> u64 {
    (points * 1e6).round() as u64
}

fn px(pixels: f64) -> i64 {
    (pixels * 1e6).round() as i64
}

fn density(h: &Harness) -> f64 {
    h.density() as f64 / 1e6
}

fn setup(count: usize) -> Harness {
    let mut harness = Harness::uniform(count, pt(600.0), pt(800.0));
    harness.viewport(px(1000.0), px(900.0));
    harness
}

/// go_to_page parses, clamps, and reports the resulting page.
#[test]
fn go_to_page_parses_and_clamps() {
    let mut h = Harness::uniform(10, pt(600.0), pt(800.0));
    // Paged mode avoids touching the scroll offset property.
    h.viewer.set_continuous(false);

    h.viewer.go_to_page("4");
    assert_eq!(h.current_page(), 4);

    // Out of range clamps to the last page.
    h.viewer.go_to_page("999");
    assert_eq!(h.current_page(), 10);

    // Non-numeric input is ignored (page unchanged).
    h.viewer.go_to_page("abc");
    assert_eq!(h.current_page(), 10);
}

#[test]
fn go_to_page_jumps_to_the_requested_page() {
    let mut h = setup(50);
    h.viewer.go_to_page("25");
    assert_eq!(h.current_page(), 25);
}

#[test]
fn go_to_page_clamps_out_of_range() {
    let mut h = setup(50);
    h.viewer.go_to_page("999");
    assert_eq!(h.current_page(), 50);
    h.viewer.go_to_page("0");
    assert_eq!(h.current_page(), 1);
    h.viewer.go_to_page("-4");
    assert_eq!(h.current_page(), 1);
}

#[test]
fn go_to_page_ignores_non_numeric_input() {
    let mut h = setup(50);
    h.viewer.go_to_page("10");
    assert_eq!(h.current_page(), 10);
    h.viewer.go_to_page("abc");
    assert_eq!(h.current_page(), 10);
    h.viewer.go_to_page("");
    assert_eq!(h.current_page(), 10);
}

#[test]
fn toggle_continuous_flips_the_mode() {
    let mut h = setup(20);
    assert!(h.continuous());
    h.viewer.toggle_continuous();
    assert!(!h.continuous());
    h.viewer.toggle_continuous();
    assert!(h.continuous());
}

#[test]
fn switching_to_paged_keeps_the_position() {
    let mut h = setup(50);
    h.viewer.fit_width();
    h.viewer.go_to_page("30");
    assert_eq!(h.current_page(), 30);
    h.viewer.set_continuous(false);
    assert_eq!(h.current_page(), 30, "paged mode should keep the reading position");
}

#[test]
fn zoom_in_then_out_returns_to_the_start() {
    let mut h = setup(20);
    h.viewer.zoom_reset();
    let base = density(&h);
    h.viewer.zoom_in();
    assert!(density(&h) > base, "zoom in increases density");
    h.viewer.zoom_out();
    assert!((density(&h) - base).abs() < 0.001, "zoom out undoes zoom in");
}

#[test]
fn zoom_reset_is_base_density() {
    let mut h = setup(20);
    h.viewer.zoom_in();
    h.viewer.zoom_in();
    h.viewer.zoom_reset();
    assert!((density(&h) - BASE_DENSITY).abs() < 0.001);
}

#[test]
fn fit_width_makes_the_page_span_the_viewport() {
    let mut h = setup(20);
    h.viewer.fit_width();
    // Page is 600pt wide; view is 1000 logical px with a 24px gutter.
    let page_px = 600.0 * density(&h);
    assert!((page_px - 976.0).abs() < 5.0, "page width was {page_px}, expected ~976");
}

#[test]
fn fit_page_makes_the_page_fit_the_height() {
    let mut h = setup(20);
    h.viewer.fit_page();
    // Portrait page in a wider-than-tall viewport: height is the constraint.
    let page_h = 800.0 * density(&h);
    assert!(page_h <= 900.0, "page height {page_h} should fit the 900px viewport");
    assert!((page_h - 876.0).abs() < 5.0, "page height was {page_h}, expected ~876");
}

#[test]
fn typed_numbers_may_have_a_sign_and_spaces() {
    let mut h = setup(50);
    h.viewer.go_to_page("  +12\t");
    assert_eq!(h.current_page(), 12);
    h.viewer.go_to_page("\u{3000}7\u{a0}");
    assert_eq!(h.current_page(), 7);
    // None of these is a number of 32 bits.
    for text in ["1 2", "+", "-", "--3", "3.0", "2147483648", "99999999999999999999", "0x10"] {
        h.viewer.go_to_page(text);
        assert_eq!(h.current_page(), 7, "{text:?} should be ignored");
    }
    h.viewer.go_to_page("2147483647");
    assert_eq!(h.current_page(), 50);
    h.viewer.go_to_page("-2147483648");
    assert_eq!(h.current_page(), 1);
}

#[test]
fn zoom_stays_within_limits() {
    let mut h = setup(3);
    for _ in 0..40 {
        h.viewer.zoom_in();
    }
    assert_eq!(h.density(), 4 * 8_000_000 / 3);
    for _ in 0..60 {
        h.viewer.zoom_out();
    }
    assert_eq!(h.density(), 4 * 100_000 / 3);
    h.viewer.zoom_reset();
    h.viewer.zoom_in();
    assert_eq!(h.density(), 4 * 1_250_000 / 3);
    h.viewer.zoom_in();
    assert_eq!(h.density(), 4 * 1_562_500 / 3);
}

#[test]
fn a_fit_mode_follows_the_viewport() {
    let mut h = setup(20);
    h.viewer.fit_width();
    h.viewport(px(624.0), px(900.0));
    // 600 pixels for 600 points: a density of 1 but for rounding.
    assert!((density(&h) - 1.0).abs() < 0.00001);
    // Free zoom stays as it is.
    h.viewer.zoom_reset();
    h.viewport(px(300.0), px(300.0));
    assert_eq!(h.density(), 1_333_333);
}

#[test]
fn returning_to_continuous_scrolls_to_the_row() {
    let mut h = setup(50);
    h.viewer.zoom_reset();
    h.viewer.set_continuous(false);
    h.viewer.go_to_page("12");
    h.viewer.set_continuous(true);
    // Eleven rows of 800 points and a gap.
    let pitch = 800_000_000i128 * 4 / 3 + 16_000_000;
    assert_eq!(h.scroll_y(), -11 * pitch);
    assert_eq!(h.current_page(), 12);
}
