//! Spread / row-layout behavior.

use melkkipdf::testing::Harness;

fn pt(points: f64) -> u64 {
    (points * 1e6).round() as u64
}

fn px(pixels: f64) -> i64 {
    (pixels * 1e6).round() as i64
}

#[test]
fn initial_state_is_single_continuous() {
    let h = Harness::uniform(42, pt(600.0), pt(800.0));
    assert_eq!(h.page_count(), 42);
    assert_eq!(h.current_page(), 1);
    assert!(h.continuous());
    assert_eq!(h.spread_mode(), 0);
}

#[test]
fn single_mode_is_one_page_per_row() {
    let h = Harness::uniform(3, pt(600.0), pt(800.0));
    assert_eq!(h.rows(), vec![(0, None), (1, None), (2, None)]);
}

#[test]
fn odd_spread_pairs_from_the_first_page() {
    let mut h = Harness::uniform(5, pt(600.0), pt(800.0));
    h.viewer.set_spread(1);
    assert_eq!(h.spread_mode(), 1);
    assert_eq!(h.rows(), vec![(0, Some(1)), (2, Some(3)), (4, None)]);
}

#[test]
fn even_spread_keeps_the_first_page_alone() {
    let mut h = Harness::uniform(5, pt(600.0), pt(800.0));
    h.viewer.set_spread(2);
    assert_eq!(h.spread_mode(), 2);
    assert_eq!(h.rows(), vec![(0, None), (1, Some(2)), (3, Some(4))]);
}

#[test]
fn spread_mode_changes_row_count() {
    let mut h = Harness::uniform(10, pt(600.0), pt(800.0));
    assert_eq!(h.row_count(), 10); // single: one row per page
    h.viewer.set_spread(1);
    assert_eq!(h.row_count(), 5); // odd: five pairs
    h.viewer.set_spread(2);
    assert_eq!(h.row_count(), 6); // even: [0] then five pairs
    h.viewer.set_spread(0);
    assert_eq!(h.row_count(), 10);
}

#[test]
fn switching_spread_clamps_the_current_page() {
    let mut h = Harness::uniform(9, pt(600.0), pt(800.0));
    h.viewport(px(1000.0), px(900.0));
    h.viewer.nav_end();
    assert_eq!(h.current_page(), 9);
    // Fewer rows after pairing; the current page must stay in range.
    h.viewer.set_spread(1);
    assert!(h.current_page() >= 1 && h.current_page() <= 9);
}

#[test]
fn an_unknown_spread_mode_is_single() {
    let mut h = Harness::uniform(5, pt(600.0), pt(800.0));
    h.viewer.set_spread(1);
    h.viewer.set_spread(7);
    assert_eq!(h.spread_mode(), 0);
    assert_eq!(h.row_count(), 5);
}

#[test]
fn an_empty_document_has_no_rows_and_no_page() {
    let mut h = Harness::with_pages(vec![]);
    h.viewport(px(1000.0), px(900.0));
    h.viewer.nav_end();
    h.viewer.nav_page(1);
    h.viewer.go_to_page("3");
    h.viewer.scrolled(5_000_000);
    assert_eq!(h.row_count(), 0);
    assert_eq!(h.page_count(), 0);
    assert_eq!(h.current_page(), 0);
    assert!(h.take_render_requests().is_empty());
}

#[test]
fn the_reference_height_is_published() {
    let mut h = Harness::uniform(4, pt(600.0), pt(800.0));
    assert_eq!(h.viewer.window().row_height_pt, pt(800.0));
    assert_eq!(h.viewer.status(), "4 pages \u{b7} 100% \u{b7} continuous \u{b7} single");
    h.viewer.set_spread(2);
    h.viewer.set_continuous(false);
    assert_eq!(h.viewer.status(), "4 pages \u{b7} 100% \u{b7} paged 1/3 \u{b7} even spread");
    h.viewer.set_spread(1);
    assert_eq!(h.viewer.status(), "4 pages \u{b7} 100% \u{b7} paged 1/2 \u{b7} odd spread");
}
