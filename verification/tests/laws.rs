//! What holds of the viewer as a whole, on concrete values.

use melkkipdf::app::{run, App, Event};
use melkkipdf::layout::PageSize;
use melkkipdf::outline::{flatten_outline, Outline};
use melkkipdf::pixels::pixmap_to_buffer;
use melkkipdf::render::thumbnail_scale;
use melkkipdf::testing::Harness;
use melkkipdf::text::{append_decimal, append_signed, parse_integer};

const POINT: u64 = 1_000_000;
const PIXEL: i64 = 1_000_000;

fn setup(count: usize) -> Harness {
    let mut harness = Harness::uniform(count, 600 * POINT, 800 * POINT);
    harness.viewport(1000 * PIXEL, 900 * PIXEL);
    harness
}

fn opened(count: usize) -> App {
    let (mut app, _) = run(None);
    let pages = vec![PageSize { width: 600 * POINT, height: 800 * POINT }; count];
    assert_eq!(app.open("a.pdf", Ok(pages), &vec![], 1_000_000), None);
    app
}

#[test]
fn home_on_a_single_spread_in_paged_mode_shows_its_last_page() {
    let mut h = setup(2);
    h.viewer.set_spread(1);
    h.viewer.set_continuous(false);
    h.viewer.nav_home();
    assert_eq!(h.row_count(), 1);
    assert_eq!(h.current_page(), 2);
}

#[test]
fn end_of_a_document_that_fits_shows_the_last_page() {
    let mut h = Harness::uniform(3, 600 * POINT, 800 * POINT);
    h.viewport(1000 * PIXEL, 100_000 * PIXEL);
    h.viewer.set_spread(2);
    h.viewer.nav_end();
    // Both rows are in view at once, and the last one holds pages 2 and 3.
    assert_eq!(h.scroll_y(), 0);
    assert_eq!(h.current_page(), 3);
    h.viewer.nav_home();
    assert_eq!(h.current_page(), 1);
}

#[test]
fn end_of_a_spread_that_fits_shows_its_last_page() {
    let mut h = setup(2);
    h.viewer.set_spread(1);
    assert_eq!(h.current_page(), 1);
    h.viewer.nav_end();
    assert_eq!(h.row_count(), 1);
    assert!(h.continuous());
    assert_eq!(h.current_page(), 2);
    // Home goes back to its first page, though the view is the same.
    h.viewer.nav_home();
    assert_eq!(h.current_page(), 1);
    h.viewer.go_to_page("2");
    assert_eq!(h.current_page(), 1);
}

#[test]
fn page_up_undoes_page_down() {
    let mut h = setup(20);
    h.viewer.go_to_page("7");
    let offset = h.scroll_y();
    h.viewer.nav_page(1);
    assert_eq!(h.current_page(), 8);
    h.viewer.nav_page(-1);
    assert_eq!(h.current_page(), 7);
    assert_eq!(h.scroll_y(), offset);
}

#[test]
fn opposite_arrow_keys_cancel() {
    let mut h = setup(20);
    h.viewer.go_to_page("3");
    let offset = h.scroll_y();
    h.viewer.nav_line(2);
    assert_eq!(h.scroll_y(), offset - 240_000_000);
    h.viewer.nav_line(-2);
    assert_eq!(h.scroll_y(), offset);
}

#[test]
fn turning_the_wheel_back_returns_to_the_lower_edge() {
    let mut h = Harness::uniform(5, 600 * POINT, 800 * POINT);
    h.viewport(1000 * PIXEL, 400 * PIXEL);
    h.viewer.set_continuous(false);
    h.viewer.fit_width();
    h.viewer.paged_scroll(0, -100_000 * PIXEL, false);
    let edge = h.viewer.window().paged_offset_y;
    h.viewer.paged_scroll(0, -PIXEL, false);
    assert_eq!(h.current_page(), 2);
    h.viewer.paged_scroll(0, PIXEL, false);
    assert_eq!(h.current_page(), 1);
    assert_eq!(h.viewer.window().paged_offset_y, edge);
}

#[test]
fn fitting_leaves_the_gutter_free() {
    let mut h = Harness::with_pages(vec![
        PageSize { width: 612 * POINT, height: 792 * POINT },
        PageSize { width: 792 * POINT, height: 612 * POINT },
    ]);
    h.viewport(1003 * PIXEL, 717 * PIXEL);
    h.viewer.fit_width();
    // The wide page spans 979 pixels, to the last millionth of the zoom.
    let zoom = 979_000_000i128 * 3_000_000 / (4 * 792_000_000);
    assert_eq!(h.density(), 4 * zoom / 3);
    let across = 4 * 792_000_000 * zoom / 3_000_000;
    assert!(across <= 979_000_000);
    assert!(4 * 792_000_000 * (zoom + 1) / 3_000_000 >= 979_000_000);
    // The tall page is what limits the height: 693 pixels.
    h.viewer.fit_page();
    assert_eq!(h.density(), 4 * (693_000_000i128 * 3_000_000 / (4 * 792_000_000)) / 3);
}

#[test]
fn a_tiny_view_stops_at_the_smallest_zoom() {
    let mut h = Harness::uniform(2, 600 * POINT, 800 * POINT);
    h.viewport(1, 1);
    assert_eq!(h.density(), 133_333);
    h.viewport(-5, -5);
    assert_eq!(h.density(), 133_333);
}

#[test]
fn pages_without_a_size_are_not_fitted() {
    let mut h = Harness::uniform(2, 0, 0);
    h.viewport(1000 * PIXEL, 900 * PIXEL);
    assert_eq!(h.density(), 1_333_333);
}

#[test]
fn extreme_page_sizes_are_laid_out() {
    let mut h = Harness::uniform(4, u64::MAX, u64::MAX);
    h.viewport(i64::MAX, i64::MAX);
    h.viewer.set_spread(1);
    h.viewer.zoom_in();
    h.viewer.nav_end();
    assert_eq!(h.current_page(), 4);
}

#[test]
fn zooming_out_undoes_zooming_in_to_the_last_millionth() {
    let mut h = setup(3);
    h.viewer.fit_page();
    let before = h.density();
    h.viewer.zoom_in();
    h.viewer.zoom_out();
    assert!(h.density() <= before && before <= h.density() + 2);
}

#[test]
fn no_event_takes_the_toolbar_out_of_range() {
    let mut app = opened(7);
    let mut epoch = 0;
    for step in 0..400i32 {
        let event = match (step * 7 + step / 5) % 16 {
            0 => Event::NavEnd,
            1 => Event::SetSpread { mode: step % 3 },
            2 => Event::NavPage { dir: 1 },
            3 => Event::ToggleContinuous,
            4 => Event::ZoomIn,
            5 => Event::Scrolled { offset: i128::from(step) * 77_000_000 },
            6 => Event::GoToPageIndex { page: step % 11 - 2 },
            7 => Event::ViewportResized {
                width: i64::from(step) * 3_000_000,
                height: i64::from(step) * 2_000_000,
                scale_factor: 1_000_000,
            },
            8 => Event::NavLine { dir: -1 },
            9 => Event::PagedScroll { delta_x: 5, delta_y: -300_000_000, shift: false },
            10 => Event::FitWidth,
            11 => Event::PageRendered { page: step % 7, image: 1 },
            12 => Event::NavPage { dir: -1 },
            13 => Event::ZoomOut,
            14 => Event::NavLine { dir: 3 },
            _ => Event::NavHome,
        };
        assert!(app.can_handle());
        app.handle(event);
        let viewer = app.viewer.as_mut().unwrap();
        let page = viewer.window().current_page;
        assert!((1..=7).contains(&page), "step {step} shows page {page}");
        assert!(viewer.generation() >= epoch);
        for command in viewer.take_commands() {
            if let melkkipdf::model::Command::Render(request) = command {
                assert!((0..7).contains(&request.page));
                assert!(epoch <= request.generation && request.generation <= viewer.generation());
            }
        }
        epoch = viewer.generation();
    }
}

#[test]
fn a_fit_stays_in_force_until_the_reader_zooms() {
    let mut app = opened(9);
    let resized = |width: i64, height: i64| Event::ViewportResized {
        width: width * PIXEL,
        height: height * PIXEL,
        scale_factor: 1_000_000,
    };
    app.handle(resized(1000, 900));
    app.handle(Event::FitWidth);
    app.handle(Event::SetSpread { mode: 1 });
    app.handle(Event::ToggleContinuous);
    app.handle(resized(1224, 500));
    // Two pages of 600 points across 1200 pixels: a density of 1.
    let density = app.viewer.as_ref().unwrap().window().density;
    assert!((999_998..=1_000_000).contains(&density), "{density}");
    app.handle(Event::ZoomReset);
    app.handle(resized(600, 500));
    assert_eq!(app.viewer.as_ref().unwrap().window().density, 1_333_333);
}

#[test]
fn numbers_are_read_back() {
    for number in [0, 1, 9, 10, 47, 1_000, i32::MAX, -1, -10, i32::MIN] {
        let mut text = String::new();
        append_signed(&mut text, i64::from(number));
        assert_eq!(text, number.to_string());
        assert_eq!(parse_integer(&text), Some(number));
        assert_eq!(parse_integer(&format!("\n {text}\u{2003}")), Some(number));
    }
    let mut text = String::from("n = ");
    append_decimal(&mut text, u64::MAX);
    assert_eq!(text, "n = 18446744073709551615");
    assert_eq!(parse_integer("+007"), Some(7));
    assert_eq!(parse_integer("-2147483649"), None);
}

#[test]
fn bookmarks_of_later_parts_follow() {
    let leaf = |title: &str| Outline { title: title.to_string(), page: None, down: vec![] };
    let first = || Outline { title: "a".to_string(), page: None, down: vec![leaf("b"), leaf("c")] };
    let titles = |outlines: &Vec<Outline>| -> Vec<String> {
        flatten_outline(outlines).into_iter().map(|item| item.title).collect()
    };
    assert_eq!(titles(&vec![first()]), vec!["a", "b", "c"]);
    assert_eq!(titles(&vec![first(), leaf("d")]), vec!["a", "b", "c", "d"]);
    assert_eq!(titles(&vec![leaf("d"), first()]), vec!["d", "a", "b", "c"]);
}

#[test]
fn every_byte_keeps_its_place() {
    let (width, height, stride) = (5usize, 4usize, 17usize);
    let samples: Vec<u8> = (0..stride * height).map(|i| (i * 31 % 251) as u8).collect();
    let buffer = pixmap_to_buffer(&samples, width as u32, height as u32, stride);
    let bytes = buffer.pixels.as_bytes();
    assert_eq!(bytes.len(), 3 * width * height);
    for y in 0..height {
        for x in 0..3 * width {
            assert_eq!(bytes[3 * width * y + x], samples[y * stride + x]);
        }
    }
}

#[test]
fn thumbnails_are_150_pixels_wide() {
    assert_eq!(thumbnail_scale(600 * POINT), 250_000);
    assert_eq!(thumbnail_scale(150 * POINT), 1_000_000);
    // A page narrower than a point counts as one point.
    assert_eq!(thumbnail_scale(0), 150_000_000);
    assert_eq!(thumbnail_scale(POINT / 2), 150_000_000);
}

#[test]
fn only_the_last_pages_rendered_keep_images() {
    let mut h = setup(70);
    let run: Vec<i32> = (0..200).map(|step| (step * step + 3 * step) % 73 - 1).collect();
    for (step, &page) in run.iter().enumerate() {
        h.viewer.on_page_rendered(page, step as u64);
    }
    let known: Vec<i32> = run.iter().copied().filter(|page| (0..70).contains(page)).collect();
    let kept = &known[known.len() - 48..];
    for page in 0..70i32 {
        let slot = h.viewer.row(page as usize).unwrap().left;
        let latest = run.iter().rposition(|&other| other == page).map(|step| step as u64);
        let expected = if kept.contains(&page) { latest } else { None };
        assert_eq!(slot.image, expected, "page {page}");
        assert_eq!((slot.page, slot.width_pt, slot.height_pt), (page, 600 * POINT, 800 * POINT));
    }
}

#[test]
fn a_huge_view_stops_at_the_largest_zoom() {
    let mut h = setup(2);
    h.viewport(1_000_000 * PIXEL, 1_000_000 * PIXEL);
    assert_eq!(h.density(), 4 * 8_000_000 / 3);
    h.viewer.fit_width();
    assert_eq!(h.density(), 4 * 8_000_000 / 3);
}

#[test]
fn zooming_requests_no_page_twice() {
    let mut h = setup(100);
    h.viewer.go_to_page("50");
    let _ = h.take_render_requests_full();
    h.viewer.zoom_reset();
    let requests = h.take_render_requests_full();
    let pages: Vec<i32> = requests.iter().map(|(page, ..)| *page).collect();
    let mut once = pages.clone();
    once.sort();
    once.dedup();
    assert_eq!(once.len(), pages.len());
    // Visible pages come first, in order, and prefetch stays near them.
    let visible = requests.iter().take_while(|(_, _, prefetch)| !prefetch).count();
    assert!(visible > 0 && requests[visible..].iter().all(|(_, _, prefetch)| *prefetch));
    assert!(pages[..visible].windows(2).all(|pair| pair[0] < pair[1]));
    let (top, bottom) = (pages[0], pages[visible - 1]);
    assert!(pages.iter().all(|&page| top - 4 <= page && page <= bottom + 4));
}

#[test]
fn toggling_the_sidebar_twice_restores_it() {
    for mut app in [run(None).0, opened(3)] {
        app.handle(Event::ToggleSidebar);
        assert!(app.sidebar_open);
        app.handle(Event::ToggleSidebar);
        assert!(!app.sidebar_open);
    }
}

#[test]
fn bookmarks_go_down_one_level_at_a_time() {
    let node = |down: Vec<Outline>| Outline { title: String::new(), page: None, down };
    let outline = vec![
        node(vec![node(vec![node(vec![])]), node(vec![])]),
        node(vec![]),
        node(vec![node(vec![])]),
    ];
    let depths: Vec<i32> = flatten_outline(&outline).iter().map(|item| item.depth).collect();
    assert_eq!(depths, vec![0, 1, 2, 1, 0, 0, 1]);
}
