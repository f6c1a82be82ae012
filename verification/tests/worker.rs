//! The render worker's decisions.

use melkkipdf::pixels::{pixmap_to_buffer, PageBuffer};
use melkkipdf::render::{
    cache_key, Delivery, Job, RenderControl, RenderRequest, RenderWorker, ThumbnailQueue,
};

fn request(page: i32, generation: u64, prefetch: bool) -> RenderRequest {
    RenderRequest { page, scale: 1_333_333, generation, prefetch }
}

fn one_pixel(value: u8) -> PageBuffer {
    pixmap_to_buffer(&[value, value, value], 1, 1, 3)
}

fn next_page(worker: &mut RenderWorker) -> i32 {
    match worker.next() {
        Some(Job::Render { request }) => request.page,
        Some(Job::Show { .. }) => panic!("nothing was rendered yet"),
        None => panic!("nothing to do"),
    }
}

#[test]
fn only_the_newest_view_is_rendered() {
    let mut worker = RenderWorker::new();
    assert!(worker.is_idle());
    assert!(worker.next().is_none());
    worker.enqueue(request(7, 1, false));
    worker.enqueue(request(9, 2, true));
    worker.enqueue(request(5, 2, false));
    worker.enqueue(request(4, 2, false));
    worker.enqueue(request(1, 1, false));
    worker.enqueue(request(5, 2, false));
    // Visible pages before prefetch, then topmost first; no duplicates.
    assert_eq!(next_page(&mut worker), 4);
    assert_eq!(next_page(&mut worker), 5);
    assert_eq!(next_page(&mut worker), 9);
    assert!(worker.is_idle());
}

#[test]
fn a_fresh_view_preempts_the_backlog() {
    let mut worker = RenderWorker::new();
    worker.enqueue(request(1, 1, false));
    worker.enqueue(request(2, 1, false));
    assert_eq!(next_page(&mut worker), 1);
    worker.enqueue(request(30, 2, false));
    assert_eq!(next_page(&mut worker), 30);
    assert!(worker.is_idle());
}

#[test]
fn a_rendered_page_is_shown_from_the_cache() {
    let mut worker = RenderWorker::new();
    match worker.finish(request(3, 1, false), Ok(one_pixel(9)), false) {
        Delivery::Show { page, buffer } => {
            assert_eq!(page, 3);
            assert_eq!(buffer.pixels.as_bytes(), &[9, 9, 9]);
        }
        _ => panic!("a finished page is shown"),
    }
    worker.enqueue(request(3, 2, false));
    match worker.next() {
        Some(Job::Show { page, buffer }) => {
            assert_eq!(page, 3);
            assert_eq!(buffer.pixels.as_bytes(), &[9, 9, 9]);
        }
        _ => panic!("the page is in the cache"),
    }
    // Another scale is another picture.
    worker.enqueue(RenderRequest { scale: 2_000_000, ..request(3, 3, false) });
    assert_eq!(next_page(&mut worker), 3);
}

#[test]
fn an_aborted_render_is_dropped() {
    let mut worker = RenderWorker::new();
    assert!(matches!(
        worker.finish(request(3, 1, false), Ok(one_pixel(9)), true),
        Delivery::Nothing
    ));
    worker.enqueue(request(3, 2, false));
    assert_eq!(next_page(&mut worker), 3);
}

#[test]
fn a_failed_render_is_reported() {
    let mut worker = RenderWorker::new();
    match worker.finish(request(11, 1, false), Err("broken".to_string()), false) {
        Delivery::Status { text } => assert_eq!(text, "Failed to render page 12: broken"),
        _ => panic!("a failure is reported"),
    }
    match worker.finish(request(-5, 1, false), Err(String::new()), false) {
        Delivery::Status { text } => assert_eq!(text, "Failed to render page -4: "),
        _ => panic!("a failure is reported"),
    }
}

#[test]
fn keys_tell_pages_and_scales_apart() {
    let base = request(3, 1, false);
    assert_eq!(cache_key(&base), 3 * (1 << 32) + 1333);
    // Scales are compared in whole per-mille steps.
    assert_eq!(cache_key(&base), cache_key(&RenderRequest { scale: 1_333_499, ..base }));
    assert_ne!(cache_key(&base), cache_key(&RenderRequest { scale: 1_333_500, ..base }));
    assert_ne!(cache_key(&base), cache_key(&RenderRequest { page: 4, ..base }));
    assert_eq!(
        cache_key(&RenderRequest { scale: u64::MAX, ..base }),
        3 * (1 << 32) + u32::MAX as i64
    );
}

#[test]
fn a_render_is_aborted_once_the_view_moves_on() {
    let mut control = RenderControl::inert();
    assert_eq!(control.advance(5), None);
    control.begin(77, 3);
    assert_eq!(control.advance(3), None);
    assert_eq!(control.advance(4), Some(77));
    assert!(control.finish());
    assert_eq!(control.advance(9), None);
    control.begin(78, 9);
    assert!(!control.finish());
}

#[test]
fn each_thumbnail_is_rendered_once() {
    let mut queue = ThumbnailQueue::new();
    assert!(queue.first_request(3));
    assert!(queue.first_request(4));
    assert!(!queue.first_request(3));
}

#[test]
fn padded_rows_are_packed() {
    let samples: Vec<u8> = (0..30).collect();
    // Two pixels per row, rows ten bytes apart.
    let buffer = pixmap_to_buffer(&samples, 2, 3, 10);
    assert_eq!(buffer.pixels.width(), 2);
    assert_eq!(buffer.pixels.height(), 3);
    assert_eq!(
        buffer.pixels.as_bytes(),
        &[0, 1, 2, 3, 4, 5, 10, 11, 12, 13, 14, 15, 20, 21, 22, 23, 24, 25]
    );
    // A clone shows the same.
    assert_eq!(buffer.clone().pixels.as_bytes(), buffer.pixels.as_bytes());
    assert!(pixmap_to_buffer(&[], 0, 0, 0).pixels.as_bytes().is_empty());
    assert_eq!(pixmap_to_buffer(&[], 5, 0, 15).pixels.width(), 5);
}

#[test]
fn each_page_of_a_view_is_served_once() {
    let mut worker = RenderWorker::new();
    for page in [5, 3, 5, 4, 3, 5, 3] {
        worker.enqueue(request(page, 6, page == 4));
        worker.enqueue(request(page, 5, false));
    }
    let mut served = Vec::new();
    while !worker.is_idle() {
        served.push(next_page(&mut worker));
    }
    assert_eq!(served, vec![3, 5, 4]);
}

#[test]
fn a_run_of_thumbnail_requests_renders_first_occurrences() {
    let mut queue = ThumbnailQueue::new();
    let pages = [7, 2, 7, 7, 0, 2, -1, 0, 9];
    let rendered: Vec<i32> = pages.into_iter().filter(|&page| queue.first_request(page)).collect();
    assert_eq!(rendered, vec![7, 2, 0, -1, 9]);
}

#[test]
fn a_key_is_never_served_twice_in_a_row() {
    let mut worker = RenderWorker::new();
    for scale in [1_000_000, 1_000_400, 2_000_000, 2_000_000, 1_000_000] {
        worker.enqueue(RenderRequest { scale, ..request(3, 1, false) });
    }
    let mut scales = Vec::new();
    while let Some(Job::Render { request }) = worker.next() {
        scales.push(request.scale);
    }
    assert_eq!(scales, vec![1_000_000, 2_000_000, 1_000_000]);
}
