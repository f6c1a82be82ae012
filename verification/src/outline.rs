//! The document outline (bookmarks).

use vstd::prelude::*;

verus! {

/// A bookmark: its title, the 0-based page it leads to, if any, and the bookmarks
/// below it.
pub struct Outline {
    pub title: String,
    pub page: Option<u32>,
    pub down: Vec<Outline>,
}

/// A line of the bookmark sidebar. The page is -1 for a bookmark that leads
/// nowhere.
pub struct OutlineItem {
    pub title: String,
    pub page: i32,
    pub depth: i32,
}

/// A line of the bookmark sidebar: title, 0-based page, depth.
pub struct OutlineLine {
    pub title: Seq<char>,
    pub page: i32,
    pub depth: int,
}

impl View for OutlineItem {
    type V = OutlineLine;

    open spec fn view(&self) -> OutlineLine {
        OutlineLine { title: self.title@, page: self.page, depth: self.depth as int }
    }
}

/// The page that a bookmark leads to, as a signed number.
pub open spec fn target(page: Option<u32>) -> i32 {
    match page {
        Some(page) => if page <= i32::MAX { page as i32 } else { (page - 0x1_0000_0000) as i32 },
        None => (-1) as i32,
    }
}

/// The bookmarks and all those below them, depth-first, each above those below
/// it.
pub open spec fn flattened(outlines: Seq<Outline>, depth: int) -> Seq<OutlineLine>
    decreases outlines,
{
    if outlines.len() == 0 {
        Seq::empty()
    } else {
        let last = outlines[outlines.len() - 1];
        flattened(outlines.subrange(0, outlines.len() - 1), depth).push(
            OutlineLine { title: last.title@, page: target(last.page), depth },
        ) + flattened(last.down@, depth + 1)
    }
}

/// The number of levels of bookmarks.
pub open spec fn levels(outlines: Seq<Outline>) -> int
    decreases outlines,
{
    if outlines.len() == 0 {
        0
    } else {
        let last = outlines[outlines.len() - 1];
        let above = levels(outlines.subrange(0, outlines.len() - 1));
        let below = 1 + levels(last.down@);
        if above >= below { above } else { below }
    }
}

/// What the lines of the sidebar say.
pub open spec fn lines(items: Seq<OutlineItem>) -> Seq<OutlineLine> {
    Seq::new(items.len(), |i: int| items[i]@)
}

/// A bookmark and those below it take at most as many levels as all of them.
proof fn lemma_levels(outlines: Seq<Outline>, i: int)
    requires
        0 <= i < outlines.len(),
    ensures
        1 + levels(outlines[i].down@) <= levels(outlines),
    decreases outlines.len(),
{
    if i < outlines.len() - 1 {
        lemma_levels(outlines.subrange(0, outlines.len() - 1), i);
    }
}

proof fn lemma_levels_positive(outlines: Seq<Outline>)
    ensures
        levels(outlines) >= 0,
    decreases outlines,
{
    if outlines.len() > 0 {
        lemma_levels_positive(outlines.subrange(0, outlines.len() - 1));
    }
}

/// Appends the bookmarks and all those below them.
fn flatten(outlines: &Vec<Outline>, depth: i32, items: &mut Vec<OutlineItem>)
    requires
        depth + levels(outlines@) <= i32::MAX,
    ensures
        lines(final(items)@) == lines(old(items)@) + flattened(outlines@, depth as int),
    decreases outlines@,
{
    let ghost before = lines(items@);
    assert(outlines@.subrange(0, 0) =~= Seq::<Outline>::empty());
    assert(before =~= before + flattened(Seq::<Outline>::empty(), depth as int));
    for i in 0..outlines.len()
        invariant
            depth + levels(outlines@) <= i32::MAX,
            lines(items@) == before + flattened(outlines@.subrange(0, i as int), depth as int),
    {
        let outline: &Outline = &outlines[i];
        proof {
            lemma_levels(outlines@, i as int);
            lemma_levels_positive(outline.down@);
            let done = outlines@.subrange(0, i + 1);
            assert(done.subrange(0, i as int) =~= outlines@.subrange(0, i as int));
        }
        let ghost above = items@;
        let page: i32 = match outline.page {
            Some(page) => if page <= 0x7fff_ffff {
                page as i32
            } else {
                (page as i64 - 0x1_0000_0000) as i32
            },
            None => -1,
        };
        items.push(OutlineItem { title: outline.title.clone(), page, depth });
        assert(lines(items@) =~= lines(above).push(
            OutlineLine {
                title: outline.title@,
                page: target(outline.page),
                depth: depth as int,
            },
        ));
        flatten(&outline.down, depth + 1, items);
        assert(lines(items@) =~= before + flattened(outlines@.subrange(0, i + 1), depth as int));
    }
    assert(outlines@.subrange(0, outlines@.len() as int) =~= outlines@);
}

/// The outline as a flat list, depth-first, for the bookmark sidebar.
pub fn flatten_outline(outlines: &Vec<Outline>) -> (items: Vec<OutlineItem>)
    requires
        levels(outlines@) <= i32::MAX,
    ensures
        lines(items@) == flattened(outlines@, 0),
{
    let mut items: Vec<OutlineItem> = Vec::new();
    flatten(outlines, 0, &mut items);
    assert(lines(Seq::<OutlineItem>::empty()) + flattened(outlines@, 0) =~= flattened(
        outlines@,
        0,
    ));
    items
}

/// The number of bookmarks, with all those below them.
pub open spec fn bookmarks(outlines: Seq<Outline>) -> int
    decreases outlines,
{
    if outlines.len() == 0 {
        0
    } else {
        let last = outlines[outlines.len() - 1];
        bookmarks(outlines.subrange(0, outlines.len() - 1)) + 1 + bookmarks(last.down@)
    }
}

/// The list has one line for every bookmark, each as deep as the bookmark is, and
/// no deeper than there are levels.
pub proof fn law_every_bookmark_has_a_line(outlines: Seq<Outline>, depth: int)
    ensures
        flattened(outlines, depth).len() == bookmarks(outlines),
        forall|i: int|
            0 <= i < flattened(outlines, depth).len() ==> depth <= (#[trigger] flattened(
                outlines,
                depth,
            )[i]).depth < depth + levels(outlines),
    decreases outlines,
{
    if outlines.len() > 0 {
        let rest = outlines.subrange(0, outlines.len() - 1);
        let last = outlines[outlines.len() - 1];
        law_every_bookmark_has_a_line(rest, depth);
        law_every_bookmark_has_a_line(last.down@, depth + 1);
        lemma_levels_positive(last.down@);
        let above = flattened(rest, depth);
        let below = flattened(last.down@, depth + 1);
        let all = flattened(outlines, depth);
        assert forall|i: int| 0 <= i < all.len() implies depth <= (#[trigger] all[i]).depth < depth
            + levels(outlines) by {
            if i < above.len() {
                assert(all[i] == above[i]);
            } else if i > above.len() {
                assert(all[i] == below[i - above.len() - 1]);
            }
        }
    }
}

/// Bookmarks are listed in order: those of the second part of an outline follow
/// all those of the first.
pub proof fn law_bookmarks_keep_their_order(a: Seq<Outline>, b: Seq<Outline>, depth: int)
    ensures
        flattened(a + b, depth) == flattened(a, depth) + flattened(b, depth),
    decreases b.len(),
{
    if b.len() == 0 {
        assert(a + b =~= a);
        assert(flattened(a, depth) + flattened(b, depth) =~= flattened(a, depth));
    } else {
        let rest = b.subrange(0, b.len() - 1);
        law_bookmarks_keep_their_order(a, rest, depth);
        assert((a + b).subrange(0, (a + b).len() - 1) =~= a + rest);
        assert((a + b)[(a + b).len() - 1] == b[b.len() - 1]);
        assert(flattened(a + b, depth) =~= flattened(a, depth) + flattened(b, depth));
    }
}

/// The first line is at the level that the list starts from, and every other line is
/// at most one level deeper than the line before it.
pub proof fn law_lines_go_down_one_level_at_a_time(outlines: Seq<Outline>, depth: int)
    ensures
        outlines.len() > 0 ==> flattened(outlines, depth).len() > 0 && flattened(
            outlines,
            depth,
        )[0].depth == depth,
        forall|i: int|
            0 <= i && i + 1 < flattened(outlines, depth).len() ==> flattened(
                outlines,
                depth,
            )[i + 1].depth <= (#[trigger] flattened(outlines, depth)[i]).depth + 1,
    decreases outlines,
{
    if outlines.len() > 0 {
        let rest = outlines.subrange(0, outlines.len() - 1);
        let last = outlines[outlines.len() - 1];
        law_lines_go_down_one_level_at_a_time(rest, depth);
        law_lines_go_down_one_level_at_a_time(last.down@, depth + 1);
        law_every_bookmark_has_a_line(rest, depth);
        let above = flattened(rest, depth);
        let below = flattened(last.down@, depth + 1);
        let all = flattened(outlines, depth);
        let middle = above.len() as int;
        assert(all[middle].depth == depth);
        assert(rest.len() == 0 ==> middle == 0);
        assert forall|i: int| 0 <= i && i + 1 < all.len() implies all[i + 1].depth <= (
        #[trigger] all[i]).depth + 1 by {
            if i < middle {
                assert(all[i] == above[i]);
                if i + 1 < middle {
                    assert(all[i + 1] == above[i + 1]);
                }
            } else {
                assert(all[i + 1] == below[i - middle]);
                if i > middle {
                    assert(all[i] == below[i - middle - 1]);
                }
            }
        }
    }
}

/// A bookmark gives the line with its title and the page it leads to, -1 if it leads
/// nowhere, and right below it the bookmarks under it, one level deeper.
pub proof fn law_a_bookmark_stands_above_those_under_it(outline: Outline, depth: int)
    ensures
        ({
            let list = flattened(seq![outline], depth);
            &&& list.len() > 0
            &&& list[0].title == outline.title@
            &&& list[0].depth == depth
            &&& outline.page is None ==> list[0].page == -1
            &&& outline.page matches Some(page) ==> page <= 0x7fff_ffff ==> list[0].page == page
            &&& list.skip(1) == flattened(outline.down@, depth + 1)
        }),
{
    let outlines = seq![outline];
    let rest = outlines.subrange(0, outlines.len() - 1);
    assert(rest =~= Seq::<Outline>::empty());
    assert(outlines[outlines.len() - 1] == outline);
    assert(flattened(rest, depth) =~= Seq::<OutlineLine>::empty());
    let list = flattened(outlines, depth);
    assert(list.skip(1) =~= flattened(outline.down@, depth + 1));
}

}
