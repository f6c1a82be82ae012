//! Headless harness.
//!
//! Drives a [`Viewer`] and reads what it publishes, without a window or an event
//! loop. Viewer methods set their state immediately, so what the harness reports
//! is the intended behavior.

use vstd::prelude::*;

use crate::geometry::MICRO;
use crate::layout::PageSize;
use crate::model::{Command, Model, PageRow};
use crate::viewer::Viewer;

verus! {

/// A render request, by page, view epoch, and whether it is a low-priority
/// prefetch.
pub open spec fn request_line(command: Command) -> Option<(i32, u64, bool)> {
    match command {
        Command::Render(request) => Some((request.page, request.generation, request.prefetch)),
        _ => None,
    }
}

/// The render requests among the commands, in order.
pub open spec fn request_lines(commands: Seq<Command>) -> Seq<(i32, u64, bool)> {
    commands.filter_map(|command: Command| request_line(command))
}

/// Render requests are listed in the order in which they were given, with their page,
/// view and priority; other commands are left out.
pub proof fn law_render_requests_are_listed_in_order(commands: Seq<Command>, command: Command)
    ensures
        command matches Command::Render(request) ==> request_lines(commands.push(command))
            == request_lines(commands).push((request.page, request.generation, request.prefetch)),
        !(command is Render) ==> request_lines(commands.push(command)) == request_lines(commands),
        request_lines(Seq::empty()).len() == 0,
{
    assert(commands.push(command).drop_last() =~= commands);
    reveal(Seq::filter_map);
}

/// A viewer, plus convenience accessors.
pub struct Harness {
    pub viewer: Viewer,
}

impl Harness {
    pub open spec fn wf(&self) -> bool {
        self.viewer.wf()
    }

    /// Builds a harness with `count` identical pages of `width` x `height`
    /// micropoints.
    pub fn uniform(count: usize, width: u64, height: u64) -> (harness: Self)
        requires
            count <= i32::MAX,
        ensures
            harness.wf(),
            harness.viewer@ == Model::new(
                Seq::new(count as nat, |i: int| PageSize { width, height }),
                MICRO as int,
            ),
    {
        let mut pages: Vec<PageSize> = Vec::new();
        for i in 0..count
            invariant
                pages@ == Seq::new(i as nat, |i: int| PageSize { width, height }),
        {
            pages.push(PageSize { width, height });
        }
        Self::with_pages(pages)
    }

    /// Builds a harness with the given per-page sizes.
    pub fn with_pages(pages: Vec<PageSize>) -> (harness: Self)
        requires
            pages@.len() <= i32::MAX,
        ensures
            harness.wf(),
            harness.viewer@ == Model::new(pages@, MICRO as int),
    {
        Harness { viewer: Viewer::new(pages, 1_000_000) }
    }

    /// Drains and returns the 0-based page indices the viewer has requested for
    /// rendering, in the order they were queued.
    pub fn take_render_requests(&mut self) -> (pages: Vec<i32>)
        requires
            old(self).wf(),
        ensures
            final(self).wf(),
            final(self).viewer@ == old(self).viewer@.without_commands(),
            pages@ == request_lines(old(self).viewer@.commands).map_values(
                |line: (i32, u64, bool)| line.0,
            ),
    {
        let lines: Vec<(i32, u64, bool)> = self.take_render_requests_full();
        let mut pages: Vec<i32> = Vec::new();
        for i in 0..lines.len()
            invariant
                pages@ == lines@.take(i as int).map_values(|line: (i32, u64, bool)| line.0),
        {
            pages.push(lines[i].0);
        }
        assert(lines@.take(lines@.len() as int) =~= lines@);
        pages
    }

    /// Like [`Harness::take_render_requests`], but also returns each request's view
    /// epoch and whether it is a low-priority prefetch.
    pub fn take_render_requests_full(&mut self) -> (lines: Vec<(i32, u64, bool)>)
        requires
            old(self).wf(),
        ensures
            final(self).wf(),
            final(self).viewer@ == old(self).viewer@.without_commands(),
            lines@ == request_lines(old(self).viewer@.commands),
    {
        let commands: Vec<Command> = self.viewer.take_commands();
        let mut lines: Vec<(i32, u64, bool)> = Vec::new();
        assert(commands@.take(0) =~= Seq::<Command>::empty());
        for i in 0..commands.len()
            invariant
                lines@ == request_lines(commands@.take(i as int)),
        {
            assert(commands@.take(i + 1).drop_last() =~= commands@.take(i as int));
            if let Command::Render(request) = commands[i] {
                lines.push((request.page, request.generation, request.prefetch));
            }
            assert(lines@ =~= request_lines(commands@.take(i + 1)));
        }
        assert(commands@.take(commands@.len() as int) =~= commands@);
        lines
    }

    /// Sets the viewport size, as a window resize would.
    pub fn viewport(&mut self, width: i64, height: i64)
        requires
            old(self).wf(),
            old(self).viewer@.generation < u64::MAX,
        ensures
            final(self).wf(),
            final(self).viewer@ == old(self).viewer@.set_viewport(
                width as int,
                height as int,
                MICRO as int,
            ),
    {
        self.viewer.set_viewport(width, height, 1_000_000);
    }

    pub fn current_page(&self) -> (page: i32)
        ensures
            page == self.viewer@.window.current_page,
    {
        self.viewer.window().current_page
    }

    pub fn page_count(&self) -> (count: i32)
        ensures
            count == self.viewer@.window.page_count,
    {
        self.viewer.window().page_count
    }

    /// The continuous scroll offset (negative as you scroll down).
    pub fn scroll_y(&self) -> (y: i128)
        ensures
            y == self.viewer@.window.scroll_y,
    {
        self.viewer.window().scroll_y
    }

    pub fn spread_mode(&self) -> (mode: i32)
        ensures
            mode == self.viewer@.window.spread_mode,
    {
        self.viewer.window().spread_mode
    }

    pub fn continuous(&self) -> (continuous: bool)
        ensures
            continuous == self.viewer@.window.continuous,
    {
        self.viewer.window().continuous
    }

    pub fn density(&self) -> (density: i128)
        ensures
            density == self.viewer@.window.density,
    {
        self.viewer.window().density
    }

    /// Number of rows (one page each, or two for a spread).
    pub fn row_count(&self) -> (count: usize)
        requires
            self.wf(),
        ensures
            count == self.viewer@.rows.len(),
    {
        self.viewer.row_count()
    }

    /// Each row as `(left page index, optional right page index)`.
    pub fn rows(&self) -> (rows: Vec<(i32, Option<i32>)>)
        requires
            self.wf(),
        ensures
            rows@ == self.viewer@.rows.map_values(
                |row: PageRow|
                    (
                        row.left.page,
                        if row.has_right {
                            Some(row.right.page)
                        } else {
                            None
                        },
                    ),
            ),
    {
        let mut rows: Vec<(i32, Option<i32>)> = Vec::new();
        let count: usize = self.viewer.row_count();
        for i in 0..count
            invariant
                count == self.viewer@.rows.len(),
                rows@ == self.viewer@.rows.take(i as int).map_values(
                    |row: PageRow|
                        (
                            row.left.page,
                            if row.has_right {
                                Some(row.right.page)
                            } else {
                                None
                            },
                        ),
                ),
        {
            if let Some(row) = self.viewer.row(i) {
                rows.push((
                    row.left.page,
                    if row.has_right {
                        Some(row.right.page)
                    } else {
                        None
                    },
                ));
            }
        }
        assert(self.viewer@.rows.take(self.viewer@.rows.len() as int) =~= self.viewer@.rows);
        rows
    }
}

}
