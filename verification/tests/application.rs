//! Opening documents and handling events.

use melkkipdf::app::{open_failure_text, run, App, Event};
use melkkipdf::layout::PageSize;
use melkkipdf::outline::{flatten_outline, Outline};
use melkkipdf::path::file_name;

fn pages(count: usize) -> Vec<PageSize> {
    vec![PageSize { width: 600_000_000, height: 800_000_000 }; count]
}

fn open(app: &mut App, path: &str, count: usize) -> Option<String> {
    app.open(path, Ok(pages(count)), &vec![], 1_000_000)
}

fn bookmark(title: &str, page: Option<u32>, down: Vec<Outline>) -> Outline {
    Outline { title: title.to_string(), page, down }
}

#[test]
fn without_a_path_there_is_a_hint() {
    let (app, first) = run(None);
    assert!(app.viewer.is_none());
    assert_eq!(first, Err("Open a PDF to get started.".to_string()));
    let (_, first) = run(Some("a.pdf".to_string()));
    assert_eq!(first, Ok("a.pdf".to_string()));
}

#[test]
fn a_refused_document_keeps_the_open_one() {
    let (mut app, _) = run(None);
    assert_eq!(open(&mut app, "dir/a.pdf", 9), None);
    assert_eq!(app.title, "a.pdf");
    app.handle(Event::NavPage { dir: 1 });

    let refused = app.open("b.pdf", Err("bad header".to_string()), &vec![], 1_000_000);
    assert_eq!(refused, Some("Failed to open b.pdf: bad header".to_string()));
    assert_eq!(open(&mut app, "c.pdf", 0), Some("Document has no pages.".to_string()));

    assert_eq!(app.title, "a.pdf");
    let viewer = app.viewer.as_ref().unwrap();
    assert_eq!(viewer.window().page_count, 9);
    assert_eq!(viewer.window().current_page, 2);
}

#[test]
fn a_new_document_replaces_the_open_one_and_gets_the_viewport() {
    let (mut app, _) = run(None);
    app.handle(Event::ViewportResized {
        width: 1_000_000_000,
        height: 900_000_000,
        scale_factor: 1_000_000,
    });
    assert_eq!(open(&mut app, "a.pdf", 9), None);
    app.handle(Event::NavEnd);
    let refused = app.open("dir/b.pdf", Ok(pages(4)), &vec![], 1_000_000);
    assert_eq!(refused, None);
    assert_eq!(app.title, "b.pdf");
    let window = app.viewer.as_ref().unwrap().window();
    assert_eq!(window.page_count, 4);
    assert_eq!(window.current_page, 1);
    // Fit to the page: 876 pixels for 800 points.
    assert_eq!(window.density, 1_095_000);
}

#[test]
fn open_failures_name_the_path() {
    assert_eq!(open_failure_text("x y.pdf", "no such file"), "Failed to open x y.pdf: no such file");
}

#[test]
fn the_title_is_the_file_name() {
    let (mut app, _) = run(None);
    for (path, title) in [
        ("a.pdf", "a.pdf"),
        ("/home/me/some paper.pdf", "some paper.pdf"),
        ("docs//b.pdf/", "b.pdf"),
        ("docs/b.pdf/.", "b.pdf"),
        ("../\u{e4}.pdf", "\u{e4}.pdf"),
        // Where there is no file name, the path stands for it.
        ("/", "/"),
        ("docs/..", "docs/.."),
        ("", ""),
    ] {
        assert_eq!(open(&mut app, path, 2), None);
        assert_eq!(app.title, title);
    }
}

#[test]
fn file_names_are_those_of_the_system() {
    let pieces = ["", ".", "..", "a", "b.pdf", "...", ".c", "d.", " "];
    for first in pieces {
        for second in pieces {
            for third in pieces {
                let path = format!("{first}/{second}/{third}");
                let expected = std::path::Path::new(&path).file_name();
                assert_eq!(
                    file_name(&path),
                    expected.map(|name| name.to_str().unwrap().to_string()),
                    "{path}"
                );
            }
        }
        let expected = std::path::Path::new(first).file_name();
        assert_eq!(file_name(first), expected.map(|name| name.to_str().unwrap().to_string()));
    }
}

#[test]
fn events_without_a_document_do_nothing() {
    let (mut app, _) = run(None);
    assert!(app.can_handle());
    assert_eq!(app.handle(Event::NavEnd), None);
    assert_eq!(app.handle(Event::PageRendered { page: 0, image: 1 }), None);
    assert!(app.viewer.is_none());
    assert!(!app.sidebar_open);
    app.handle(Event::ToggleSidebar);
    assert!(app.sidebar_open);
}

#[test]
fn events_reach_the_viewer() {
    let (mut app, _) = run(None);
    open(&mut app, "a.pdf", 60);
    app.handle(Event::GoToPage { text: "7".to_string() });
    assert_eq!(app.viewer.as_ref().unwrap().window().current_page, 7);
    app.handle(Event::GoToPageIndex { page: 20 });
    assert_eq!(app.viewer.as_ref().unwrap().window().current_page, 21);
    app.handle(Event::SetSpread { mode: 1 });
    assert_eq!(app.viewer.as_ref().unwrap().window().spread_mode, 1);
    app.handle(Event::SetSpread { mode: 0 });
    app.handle(Event::ToggleContinuous);
    assert!(!app.viewer.as_ref().unwrap().window().continuous);
    app.handle(Event::SetContinuous { continuous: true });
    app.handle(Event::ZoomReset);
    app.handle(Event::ZoomIn);
    app.handle(Event::ZoomOut);
    assert_eq!(app.viewer.as_ref().unwrap().window().density, 1_333_333);
    app.handle(Event::NavHome);
    app.handle(Event::NavLine { dir: 1 });
    assert_eq!(app.viewer.as_ref().unwrap().window().scroll_y, -120_000_000);
    for page in 0..48 {
        assert_eq!(app.handle(Event::PageRendered { page, image: 1 }), None);
    }
    assert_eq!(app.handle(Event::PageRendered { page: 50, image: 1 }), Some(0));
    app.handle(Event::ThumbnailRendered { page: 3, image: 8 });
    assert_eq!(app.viewer.as_ref().unwrap().thumb_row(3).unwrap().left.image, Some(8));
}

#[test]
fn bookmarks_are_listed_depth_first() {
    let outline = vec![
        bookmark(
            "one",
            Some(0),
            vec![
                bookmark("one.a", Some(3), vec![bookmark("deep", None, vec![])]),
                bookmark("one.b", Some(5), vec![]),
            ],
        ),
        bookmark("two", Some(9), vec![]),
    ];
    let items: Vec<(String, i32, i32)> = flatten_outline(&outline)
        .into_iter()
        .map(|item| (item.title, item.page, item.depth))
        .collect();
    assert_eq!(
        items,
        vec![
            ("one".to_string(), 0, 0),
            ("one.a".to_string(), 3, 1),
            ("deep".to_string(), -1, 2),
            ("one.b".to_string(), 5, 1),
            ("two".to_string(), 9, 0),
        ]
    );
    assert_eq!(flatten_outline(&vec![bookmark("far", Some(u32::MAX), vec![])])[0].page, -1);
    assert!(flatten_outline(&vec![]).is_empty());
}
