//! Which pages and thumbnails show an image.

use vstd::prelude::*;

use crate::layout::{law_each_page_has_one_place, page_slot, row_specs, PageSize, Spread};
use crate::model::{
    entry, filled_rows, no_images, with_entry, Model, PageEntry, PageRow, MAX_RETAINED,
};
use crate::viewer::lemma_on_page_rendered_wf;

verus! {

/// What a row shows of one of its pages.
pub open spec fn shown(rows: Seq<PageRow>, spread: Spread, page: int) -> PageEntry {
    let slot = page_slot(spread, page);
    if slot.1 {
        rows[slot.0].right
    } else {
        rows[slot.0].left
    }
}

/// Every page of the document is shown with its number and size, and with an image
/// exactly if it is one of the retained pages.
pub proof fn law_exactly_retained_pages_have_images(m: Model, page: int)
    requires
        m.wf(),
        0 <= page < m.pages.len(),
    ensures
        ({
            let entry = shown(m.rows, m.spread, page);
            &&& entry.page == page
            &&& entry.width_pt == m.pages[page].width
            &&& entry.height_pt == m.pages[page].height
            &&& entry.image is Some <==> m.retained.contains(page as usize)
        }),
{
    law_each_page_has_one_place(m.pages.len() as int, m.spread, page);
}

/// Replacing what a page shows changes what that page shows, and no other.
proof fn lemma_replaced(
    rows: Seq<PageRow>,
    spread: Spread,
    pages: int,
    page: int,
    entry: PageEntry,
    other: int,
)
    requires
        0 <= page < pages <= i32::MAX,
        0 <= other < pages,
        rows.len() == row_specs(pages, spread).len(),
    ensures
        ({
            let changed = with_entry(rows, page_slot(spread, page), entry);
            &&& changed.len() == rows.len()
            &&& shown(changed, spread, page) == entry
            &&& other != page ==> shown(changed, spread, other) == shown(rows, spread, other)
        }),
{
    law_each_page_has_one_place(pages, spread, page);
    law_each_page_has_one_place(pages, spread, other);
}

/// The page that was just rendered stays among the retained ones.
proof fn lemma_evicted_is_another(m: Model, page: int)
    requires
        m.wf(),
        0 <= page < m.pages.len(),
    ensures
        m.evicted(page) matches Some(gone) ==> gone != page && gone < m.pages.len(),
        m.on_page_rendered(page, 0).retained.contains(page as usize),
{
    let joined = m.retained.push(page as usize);
    let skipped = joined.skip(1);
    assert(joined[joined.len() - 1] == page as usize);
    if joined.len() > MAX_RETAINED {
        assert(skipped[skipped.len() - 1] == page as usize);
        assert(joined[0] == m.retained[0]);
    }
}

/// What a page shows after one was rendered: the rendered page its image, an evicted
/// page none, and any other what it showed.
pub proof fn lemma_shown_after(m: Model, page: int, image: u64, other: int)
    requires
        m.wf(),
        0 <= page < m.pages.len(),
        0 <= other < m.pages.len(),
    ensures
        shown(m.on_page_rendered(page, image).rows, m.spread, other) == (if other == page {
            entry(m.pages, page, Some(image))
        } else if m.evicted(page) == Some(other as usize) {
            entry(m.pages, other, None)
        } else {
            shown(m.rows, m.spread, other)
        }),
{
    let count = m.pages.len() as int;
    let drawn = entry(m.pages, page, Some(image));
    let installed = with_entry(m.rows, page_slot(m.spread, page), drawn);
    lemma_evicted_is_another(m, page);
    lemma_replaced(m.rows, m.spread, count, page, drawn, other);
    if let Some(gone) = m.evicted(page) {
        let emptied = entry(m.pages, gone as int, None);
        lemma_replaced(installed, m.spread, count, gone as int, emptied, other);
    }
}

/// A page that was just rendered shows its image. At most one other page loses its
/// image to it, and all others keep showing what they showed.
pub proof fn law_a_rendered_page_is_shown(m: Model, page: int, image: u64, other: int)
    requires
        m.wf(),
        0 <= page < m.pages.len(),
        0 <= other < m.pages.len(),
        other != page,
    ensures
        ({
            let after = m.on_page_rendered(page, image);
            &&& shown(after.rows, m.spread, page).image == Some(image)
            &&& m.evicted(page) != Some(page as usize)
            &&& m.evicted(page) == Some(other as usize) ==> shown(
                after.rows,
                m.spread,
                other,
            ).image is None
            &&& m.evicted(page) != Some(other as usize) ==> shown(after.rows, m.spread, other)
                == shown(m.rows, m.spread, other)
            &&& after.retained.contains(page as usize)
        }),
{
    lemma_evicted_is_another(m, page);
    lemma_shown_after(m, page, image, page);
    lemma_shown_after(m, page, image, other);
}

/// A run of rendered pages, each with its image.
pub open spec fn after_renders(m: Model, run: Seq<(int, u64)>) -> Model
    decreases run.len(),
{
    if run.len() == 0 {
        m
    } else {
        after_renders(m, run.drop_last()).on_page_rendered(run.last().0, run.last().1)
    }
}

/// The pages of a document of `count` pages that a run renders, in order.
pub open spec fn pages_rendered(count: int, run: Seq<(int, u64)>) -> Seq<usize>
    decreases run.len(),
{
    if run.len() == 0 {
        Seq::empty()
    } else {
        let before = pages_rendered(count, run.drop_last());
        if 0 <= run.last().0 < count {
            before.push(run.last().0 as usize)
        } else {
            before
        }
    }
}

/// The last ones of them, as many as images are kept.
pub open spec fn last_rendered(pages: Seq<usize>) -> Seq<usize> {
    if pages.len() > 48 {
        pages.skip(pages.len() - 48)
    } else {
        pages
    }
}

/// The image that a page was last rendered to.
pub open spec fn latest_image(run: Seq<(int, u64)>, page: int) -> Option<u64>
    decreases run.len(),
{
    if run.len() == 0 {
        None
    } else if run.last().0 == page {
        Some(run.last().1)
    } else {
        latest_image(run.drop_last(), page)
    }
}

/// The retained pages are the last ones rendered.
proof fn lemma_retained_after(m: Model, run: Seq<(int, u64)>)
    requires
        m.wf(),
        m.retained.len() == 0,
    ensures
        ({
            let after = after_renders(m, run);
            &&& after.wf()
            &&& after.pages == m.pages
            &&& after.spread == m.spread
            &&& after.retained == last_rendered(pages_rendered(m.pages.len() as int, run))
        }),
    decreases run.len(),
{
    let count = m.pages.len() as int;
    if run.len() > 0 {
        let before = after_renders(m, run.drop_last());
        let (page, image) = run.last();
        lemma_retained_after(m, run.drop_last());
        if 0 <= page < count {
            lemma_on_page_rendered_wf(before, page, image);
            lemma_joined(before, page, image);
            lemma_last_rendered(pages_rendered(count, run.drop_last()), page as usize);
        }
    } else {
        assert(m.retained =~= last_rendered(pages_rendered(count, run)));
    }
}

/// One more page is among the last ones, and the first of them makes room.
proof fn lemma_last_rendered(pages: Seq<usize>, page: usize)
    ensures
        ({
            let joined = last_rendered(pages).push(page);
            last_rendered(pages.push(page)) == (if joined.len() > MAX_RETAINED {
                joined.skip(1)
            } else {
                joined
            })
        }),
{
    let joined = last_rendered(pages).push(page);
    assert(last_rendered(pages.push(page)) =~= (if joined.len() > MAX_RETAINED {
        joined.skip(1)
    } else {
        joined
    }));
}

/// What a rendered page changes besides rows.
proof fn lemma_joined(m: Model, page: int, image: u64)
    requires
        0 <= page < m.pages.len(),
    ensures
        ({
            let after = m.on_page_rendered(page, image);
            let joined = m.retained.push(page as usize);
            &&& after.pages == m.pages
            &&& after.spread == m.spread
            &&& after.retained == (if joined.len() > MAX_RETAINED {
                joined.skip(1)
            } else {
                joined
            })
        }),
{
}

/// Whatever was rendered since the rows were built, a page shows the image that it was
/// last rendered to exactly if it is among the last pages rendered, as many as images
/// are kept; and always its own number and size. What is no page of the document
/// changes nothing.
#[verifier::rlimit(40)]
#[verifier::spinoff_prover]
pub proof fn law_the_last_pages_rendered_are_shown(m: Model, run: Seq<(int, u64)>, page: int)
    requires
        m.wf(),
        m.retained.len() == 0,
        0 <= page < m.pages.len(),
    ensures
        ({
            let after = after_renders(m, run);
            let kept = last_rendered(pages_rendered(m.pages.len() as int, run));
            let slot = shown(after.rows, m.spread, page);
            &&& after.wf()
            &&& kept.len() <= 48
            &&& slot.image == (if kept.contains(page as usize) {
                latest_image(run, page)
            } else {
                None
            })
            &&& kept.contains(page as usize) ==> latest_image(run, page) is Some
            &&& slot.page == page
            &&& slot.width_pt == m.pages[page].width
            &&& slot.height_pt == m.pages[page].height
        }),
    decreases run.len(),
{
    let after = after_renders(m, run);
    lemma_retained_after(m, run);
    law_exactly_retained_pages_have_images(after, page);
    if run.len() > 0 {
        let before = after_renders(m, run.drop_last());
        let (drawn, image) = run.last();
        lemma_retained_after(m, run.drop_last());
        law_the_last_pages_rendered_are_shown(m, run.drop_last(), page);
        law_exactly_retained_pages_have_images(before, page);
        if 0 <= drawn < m.pages.len() {
            lemma_shown_after(before, drawn, image, page);
        }
    }
}

/// The page that leaves when another one joins is exactly the page that had an image
/// before and has none after.
pub proof fn law_the_page_that_leaves_loses_its_image(
    m: Model,
    page: int,
    image: u64,
    other: int,
)
    requires
        m.wf(),
        0 <= page < m.pages.len(),
        0 <= other < m.pages.len(),
    ensures
        ({
            let before = shown(m.rows, m.spread, other).image;
            let after = shown(m.on_page_rendered(page, image).rows, m.spread, other).image;
            m.evicted(page) == Some(other as usize) <==> before is Some && after is None
        }),
{
    lemma_shown_after(m, page, image, other);
    law_exactly_retained_pages_have_images(m, other);
    if m.evicted(page) == Some(other as usize) {
        let joined = m.retained.push(page as usize);
        assert(joined.skip(1).last() == page as usize);
        assert(joined.skip(1).contains(page as usize));
        assert(m.retained[0] == other as usize);
    }
}

/// What is no page of the document changes nothing.
pub proof fn law_unknown_pages_change_nothing(m: Model, page: int, image: u64)
    requires
        page < 0 || page >= m.pages.len(),
    ensures
        m.on_page_rendered(page, image) == m,
        m.on_thumbnail_rendered(page, image) == m,
{
}

/// Rendering again a page that is shown replaces its image, and evicts no other one
/// while there is room.
pub proof fn law_images_are_kept_while_there_is_room(m: Model, page: int, image: u64)
    requires
        m.wf(),
        0 <= page < m.pages.len(),
        m.retained.len() < 48,
    ensures
        m.evicted(page) is None,
        m.on_page_rendered(page, image).retained == m.retained.push(page as usize),
{
}

/// Dropping an image keeps the page's place and size, so nothing moves.
pub proof fn law_rendering_keeps_the_layout(m: Model, page: int, image: u64)
    requires
        m.wf(),
        0 <= page < m.pages.len(),
    ensures
        ({
            let after = m.on_page_rendered(page, image);
            &&& after.specs() == m.specs()
            &&& after.pitch() == m.pitch()
            &&& after.scroll == m.scroll
            &&& after.current_row == m.current_row
            &&& after.window.current_page == m.window.current_page
            &&& after.commands == m.commands
        }),
{
}

/// A rendered thumbnail is shown, and no other one changes.
pub proof fn law_a_rendered_thumbnail_is_shown(m: Model, page: int, image: u64, other: int)
    requires
        m.wf(),
        0 <= page < m.pages.len(),
        0 <= other < m.pages.len(),
        other != page,
    ensures
        ({
            let after = m.on_thumbnail_rendered(page, image);
            &&& shown(after.thumb_rows, m.spread, page).image == Some(image)
            &&& shown(after.thumb_rows, m.spread, other) == shown(m.thumb_rows, m.spread, other)
            &&& after.rows == m.rows
        }),
{
    law_each_page_has_one_place(m.pages.len() as int, m.spread, page);
    law_each_page_has_one_place(m.pages.len() as int, m.spread, other);
}

/// A change of the spread mode keeps every thumbnail, in its page's new place, and
/// drops the page images, which are rendered anew for the new layout.
pub proof fn law_thumbnails_survive_a_new_layout(m: Model, mode: int, page: int)
    requires
        m.wf(),
        0 <= page < m.pages.len(),
    ensures
        ({
            let after = m.set_spread(mode);
            &&& shown(after.thumb_rows, after.spread, page) == shown(m.thumb_rows, m.spread, page)
            &&& shown(after.rows, after.spread, page).image is None
            &&& after.retained.len() == 0
        }),
{
    lemma_relaid(m, mode);
    let spread = m.set_spread(mode).spread;
    lemma_filled(m.pages, m.spread, m.thumb_images, page);
    lemma_filled(m.pages, spread, m.thumb_images, page);
    lemma_filled(m.pages, spread, no_images(m.pages.len()), page);
}

/// The rows that a change of the spread mode makes.
proof fn lemma_relaid(m: Model, mode: int)
    ensures
        ({
            let after = m.set_spread(mode);
            let specs = row_specs(m.pages.len() as int, after.spread);
            &&& after.thumb_rows == filled_rows(m.pages, specs, m.thumb_images)
            &&& after.rows == filled_rows(m.pages, specs, no_images(m.pages.len()))
            &&& after.retained.len() == 0
        }),
{
}

/// A page of filled rows shows its own image.
proof fn lemma_filled(pages: Seq<PageSize>, spread: Spread, images: Seq<Option<u64>>, page: int)
    requires
        0 <= page < pages.len() <= i32::MAX,
    ensures
        shown(filled_rows(pages, row_specs(pages.len() as int, spread), images), spread, page)
            == entry(pages, page, images[page]),
{
    law_each_page_has_one_place(pages.len() as int, spread, page);
}

/// The sidebar has one row for every row of the document. Each holds the thumbnails of
/// its pages, with their numbers and sizes; the unused half of a row with one page
/// holds no page and takes no room.
pub proof fn law_thumbnail_rows_follow_the_layout(m: Model, row: int)
    requires
        m.wf(),
        0 <= row < m.specs().len(),
    ensures
        ({
            let spec = m.specs()[row];
            let slots = m.thumb_rows[row];
            &&& m.thumb_rows.len() == m.specs().len()
            &&& slots.left == entry(m.pages, spec.left as int, m.thumb_images[spec.left as int])
            &&& slots.has_right <==> spec.right is Some
            &&& spec.right matches Some(right) ==> slots.right == entry(
                m.pages,
                right as int,
                m.thumb_images[right as int],
            )
            &&& spec.right is None ==> slots.right.page == -1 && slots.right.width_pt == 0
                && slots.right.height_pt == 0 && slots.right.image is None
        }),
{
}

}
