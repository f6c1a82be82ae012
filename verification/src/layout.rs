//! How pages are grouped into rows.
//!
//! A row holds one page, or two side by side for a spread. Everything else in
//! the viewer works on rows, so this module fixes which pages share a row, where
//! a page is found again, and how large the largest row is.

use vstd::prelude::*;

verus! {

/// How pages are grouped into rows.
#[derive(Clone, Copy, Debug, PartialEq, Eq, Structural)]
pub enum Spread {
    /// One page per row.
    Single,
    /// Two pages per row starting at the first page: `[0,1] [2,3] ..`
    Odd,
    /// First page alone (centered), then pairs: `[0] [1,2] [3,4] ..`
    Even,
}

/// The page indices making up one row.
#[derive(Clone, Copy, Debug, PartialEq, Eq, Structural)]
pub struct RowSpec {
    pub left: usize,
    pub right: Option<usize>,
}

/// A page's size in micropoints (millionths of a point).
#[derive(Clone, Copy, Debug, PartialEq, Eq, Structural)]
pub struct PageSize {
    pub width: u64,
    pub height: u64,
}

/// The number of rows that `pages` pages make.
pub open spec fn row_count(pages: int, spread: Spread) -> int {
    match spread {
        Spread::Single => pages,
        Spread::Odd => (pages + 1) / 2,
        Spread::Even => if pages == 0 { 0 } else { 1 + pages / 2 },
    }
}

/// The pages of row `row`.
pub open spec fn row_spec(pages: int, spread: Spread, row: int) -> RowSpec {
    let left = match spread {
        Spread::Single => row,
        Spread::Odd => 2 * row,
        Spread::Even => if row == 0 { 0 } else { 2 * row - 1 },
    };
    let paired = match spread {
        Spread::Single => false,
        Spread::Odd => left + 1 < pages,
        Spread::Even => row > 0 && left + 1 < pages,
    };
    RowSpec {
        left: left as usize,
        right: if paired { Some((left + 1) as usize) } else { None },
    }
}

/// All rows of a document of `pages` pages, top to bottom.
pub open spec fn row_specs(pages: int, spread: Spread) -> Seq<RowSpec> {
    Seq::new(row_count(pages, spread) as nat, |row: int| row_spec(pages, spread, row))
}

/// The row of a page, and whether it is the right page of its spread.
pub open spec fn page_slot(spread: Spread, page: int) -> (int, bool) {
    match spread {
        Spread::Single => (page, false),
        Spread::Odd => (page / 2, page % 2 == 1),
        Spread::Even => if page == 0 { (0, false) } else { ((page + 1) / 2, page % 2 == 0) },
    }
}

/// Where `page` was last mentioned by `specs`: the row, and whether it is the
/// right page there. A page that no row mentions is reported at the left of the
/// first row.
pub open spec fn location(specs: Seq<RowSpec>, page: int) -> (usize, bool)
    decreases specs.len(),
{
    if specs.len() == 0 {
        (0, false)
    } else if specs.last().right == Some(page as usize) {
        ((specs.len() - 1) as usize, true)
    } else if specs.last().left == page {
        ((specs.len() - 1) as usize, false)
    } else {
        location(specs.drop_last(), page)
    }
}

/// Every page that `specs` mentions is one of `pages` pages.
pub open spec fn specs_within(specs: Seq<RowSpec>, pages: int) -> bool {
    forall|row: int|
        0 <= row < specs.len() ==> (#[trigger] specs[row]).left < pages && (specs[row].right matches Some(
            right,
        ) ==> right < pages)
}

pub open spec fn max(a: int, b: int) -> int {
    if a >= b { a } else { b }
}

pub open spec fn min(a: int, b: int) -> int {
    if a <= b { a } else { b }
}

/// The width of a row: its pages side by side.
pub open spec fn row_width_pt(spec: RowSpec, pages: Seq<PageSize>) -> int {
    pages[spec.left as int].width + match spec.right {
        Some(right) => pages[right as int].width as int,
        None => 0,
    }
}

/// The height of a row: its taller page.
pub open spec fn row_height_pt(spec: RowSpec, pages: Seq<PageSize>) -> int {
    max(
        pages[spec.left as int].height as int,
        match spec.right {
            Some(right) => pages[right as int].height as int,
            None => 0,
        },
    )
}

/// The width of the widest row, 0 without rows.
pub open spec fn widest(specs: Seq<RowSpec>, pages: Seq<PageSize>) -> int
    decreases specs.len(),
{
    if specs.len() == 0 {
        0
    } else {
        max(widest(specs.drop_last(), pages), row_width_pt(specs.last(), pages))
    }
}

/// The height of the tallest row, 0 without rows.
pub open spec fn tallest(specs: Seq<RowSpec>, pages: Seq<PageSize>) -> int
    decreases specs.len(),
{
    if specs.len() == 0 {
        0
    } else {
        max(tallest(specs.drop_last(), pages), row_height_pt(specs.last(), pages))
    }
}

/// The 0/1/2 index used by the toolbar's spread radios.
pub open spec fn spread_number(spread: Spread) -> i32 {
    match spread {
        Spread::Single => 0,
        Spread::Odd => 1,
        Spread::Even => 2,
    }
}

/// The 0/1/2 index used by the toolbar's spread radios.
pub fn spread_index(spread: Spread) -> (index: i32)
    ensures
        index == spread_number(spread),
{
    match spread {
        Spread::Single => 0,
        Spread::Odd => 1,
        Spread::Even => 2,
    }
}

/// Pushes rows of two pages from page `start` on; the last row holds one page
/// if the pages do not come out even.
fn pair_from(start: usize, page_count: usize, rows: &mut Vec<RowSpec>)
    requires
        start <= page_count,
    ensures
        final(rows)@ == old(rows)@ + Seq::new(
            ((page_count - start + 1) / 2) as nat,
            |k: int|
                RowSpec {
                    left: (start + 2 * k) as usize,
                    right: if start + 2 * k + 1 < page_count {
                        Some((start + 2 * k + 1) as usize)
                    } else {
                        None
                    },
                },
        ),
{
    let mut i: usize = start;
    let ghost mut k: int = 0;
    while i < page_count
        invariant
            k >= 0,
            i == min(start + 2 * k, page_count as int),
            start + 2 * k <= page_count + 1,
            start <= page_count,
            rows@ == old(rows)@ + Seq::new(
                k as nat,
                |k: int|
                    RowSpec {
                        left: (start + 2 * k) as usize,
                        right: if start + 2 * k + 1 < page_count {
                            Some((start + 2 * k + 1) as usize)
                        } else {
                            None
                        },
                    },
            ),
        decreases page_count - i,
    {
        let right: Option<usize> = if i + 1 < page_count { Some(i + 1) } else { None };
        rows.push(RowSpec { left: i, right });
        proof {
            k = k + 1;
        }
        if page_count - i >= 2 {
            i += 2;
        } else {
            i = page_count;
        }
    }
}

/// Groups `page_count` pages into rows according to the spread mode.
pub fn build_row_specs(page_count: usize, spread: Spread) -> (specs: Vec<RowSpec>)
    ensures
        specs@ == row_specs(page_count as int, spread),
{
    let mut rows: Vec<RowSpec> = Vec::new();
    match spread {
        Spread::Single => {
            for i in 0..page_count
                invariant
                    rows@ == row_specs(page_count as int, spread).take(i as int),
                    spread == Spread::Single,
            {
                rows.push(RowSpec { left: i, right: None });
            }
        },
        Spread::Odd => pair_from(0, page_count, &mut rows),
        Spread::Even => {
            if page_count > 0 {
                // First page sits alone (centered), then pairs.
                rows.push(RowSpec { left: 0, right: None });
                pair_from(1, page_count, &mut rows);
            }
        },
    }
    rows
}

/// Builds the map from page index to (row index, is-right-of-spread).
pub fn page_locations(specs: &[RowSpec], page_count: usize) -> (locations: Vec<(usize, bool)>)
    requires
        specs_within(specs@, page_count as int),
    ensures
        locations@ == Seq::new(page_count as nat, |page: int| location(specs@, page)),
{
    let mut locations: Vec<(usize, bool)> = Vec::new();
    for page in 0..page_count
        invariant
            locations@ == Seq::new(page as nat, |page: int| location(specs@.take(0), page)),
    {
        locations.push((0, false));
    }
    for row in 0..specs.len()
        invariant
            specs_within(specs@, page_count as int),
            locations@ == Seq::new(
                page_count as nat,
                |page: int| location(specs@.take(row as int), page),
            ),
    {
        let spec: RowSpec = specs[row];
        proof {
            assert(specs@.take(row + 1).drop_last() =~= specs@.take(row as int));
            assert(specs@.take(row + 1).last() == spec);
        }
        locations.set(spec.left, (row, false));
        if let Some(right) = spec.right {
            locations.set(right, (row, true));
        }
    }
    assert(specs@.take(specs@.len() as int) =~= specs@);
    locations
}

/// The largest row's width and height in micropoints, used as the fit reference
/// so no row overflows the viewport.
pub fn reference_dims(specs: &[RowSpec], pages: &[PageSize]) -> (dims: (u128, u64))
    requires
        specs_within(specs@, pages@.len() as int),
    ensures
        dims.0 == widest(specs@, pages@),
        dims.1 == tallest(specs@, pages@),
{
    let mut width: u128 = 0;
    let mut height: u64 = 0;
    for row in 0..specs.len()
        invariant
            specs_within(specs@, pages@.len() as int),
            width == widest(specs@.take(row as int), pages@),
            height == tallest(specs@.take(row as int), pages@),
    {
        let spec: RowSpec = specs[row];
        proof {
            assert(specs@.take(row + 1).drop_last() =~= specs@.take(row as int));
            assert(specs@.take(row + 1).last() == spec);
        }
        let left: PageSize = pages[spec.left];
        let right: PageSize = match spec.right {
            Some(right) => pages[right],
            None => PageSize { width: 0, height: 0 },
        };
        let row_width: u128 = left.width as u128 + right.width as u128;
        if row_width > width {
            width = row_width;
        }
        if left.height > height {
            height = left.height;
        }
        if right.height > height {
            height = right.height;
        }
    }
    assert(specs@.take(specs@.len() as int) =~= specs@);
    (width, height)
}

/// The rows of a document mention only its own pages.
pub proof fn lemma_specs_within(pages: int, spread: Spread)
    requires
        0 <= pages <= usize::MAX,
    ensures
        specs_within(row_specs(pages, spread), pages),
{
}

/// Every page stands in exactly one place: the row that `page_slot` gives holds
/// it on the side that `page_slot` gives, and no other row or side holds it.
pub proof fn law_each_page_has_one_place(pages: int, spread: Spread, page: int)
    requires
        0 <= page < pages <= usize::MAX,
    ensures
        ({
            let specs = row_specs(pages, spread);
            let slot = page_slot(spread, page);
            &&& 0 <= slot.0 < specs.len()
            &&& !slot.1 <==> specs[slot.0].left == page
            &&& slot.1 <==> specs[slot.0].right == Some(page as usize)
            &&& forall|row: int|
                0 <= row < specs.len() && ((#[trigger] specs[row]).left == page || specs[row].right
                    == Some(page as usize)) ==> row == slot.0
        }),
{
}

/// The location map finds every page where the rows put it.
pub proof fn law_locations_map_pages_back_to_rows(pages: int, spread: Spread, page: int)
    requires
        0 <= page < pages <= usize::MAX,
    ensures
        location(row_specs(pages, spread), page).0 == page_slot(spread, page).0,
        location(row_specs(pages, spread), page).1 == page_slot(spread, page).1,
{
    law_each_page_has_one_place(pages, spread, page);
    lemma_location_in_prefix(row_specs(pages, spread), page, page_slot(spread, page).0);
}

/// A page that only row `row` mentions is located there.
proof fn lemma_location_in_prefix(specs: Seq<RowSpec>, page: int, row: int)
    requires
        0 <= page <= usize::MAX,
        0 <= row < specs.len() <= usize::MAX,
        specs[row].left == page || specs[row].right == Some(page as usize),
        forall|other: int|
            0 <= other < specs.len() && ((#[trigger] specs[other]).left == page
                || specs[other].right == Some(page as usize)) ==> other == row,
    ensures
        location(specs, page) == (row as usize, specs[row].right == Some(page as usize)),
    decreases specs.len(),
{
    if row < specs.len() - 1 {
        assert(specs.last() == specs[specs.len() - 1]);
        assert forall|other: int|
            0 <= other < specs.drop_last().len() && ((#[trigger] specs.drop_last()[other]).left
                == page || specs.drop_last()[other].right == Some(page as usize)) implies other
            == row by {
            assert(specs.drop_last()[other] == specs[other]);
        }
        lemma_location_in_prefix(specs.drop_last(), page, row);
    }
}

/// Pages keep their order: each row starts right after the row above ends, the
/// first row starts at the first page, and the last row ends at the last page.
pub proof fn law_rows_keep_page_order(pages: int, spread: Spread)
    requires
        0 <= pages <= usize::MAX,
    ensures
        ({
            let specs = row_specs(pages, spread);
            &&& specs.len() == 0 <==> pages == 0
            &&& pages > 0 ==> specs[0].left == 0
            &&& pages > 0 ==> row_end(specs.last()) == pages
            &&& forall|row: int|
                0 < row < specs.len() ==> (#[trigger] specs[row]).left == row_end(specs[row - 1])
        }),
{
}

/// One past the last page of a row; the right page follows the left one.
pub open spec fn row_end(spec: RowSpec) -> int {
    match spec.right {
        Some(right) => right + 1,
        None => spec.left + 1,
    }
}

/// No row is wider or taller than the reference dimensions, and they are not
/// larger than they have to be.
pub proof fn law_reference_covers_every_row(specs: Seq<RowSpec>, pages: Seq<PageSize>)
    ensures
        forall|row: int|
            0 <= row < specs.len() ==> row_width_pt(#[trigger] specs[row], pages) <= widest(
                specs,
                pages,
            ) && row_height_pt(specs[row], pages) <= tallest(specs, pages),
        specs.len() > 0 ==> exists|row: int|
            0 <= row < specs.len() && row_width_pt(#[trigger] specs[row], pages) == widest(
                specs,
                pages,
            ),
        specs.len() > 0 ==> exists|row: int|
            0 <= row < specs.len() && row_height_pt(#[trigger] specs[row], pages) == tallest(
                specs,
                pages,
            ),
    decreases specs.len(),
{
    if specs.len() > 0 {
        let rest = specs.drop_last();
        law_reference_covers_every_row(rest, pages);
        assert forall|row: int| 0 <= row < specs.len() implies row_width_pt(
            #[trigger] specs[row],
            pages,
        ) <= widest(specs, pages) && row_height_pt(specs[row], pages) <= tallest(specs, pages) by {
            if row < rest.len() {
                assert(rest[row] == specs[row]);
            }
        }
        assert(row_width_pt(specs[specs.len() - 1], pages) == row_width_pt(specs.last(), pages));
        if rest.len() > 0 {
            let w = choose|row: int|
                0 <= row < rest.len() && row_width_pt(#[trigger] rest[row], pages) == widest(
                    rest,
                    pages,
                );
            let h = choose|row: int|
                0 <= row < rest.len() && row_height_pt(#[trigger] rest[row], pages) == tallest(
                    rest,
                    pages,
                );
            assert(rest[w] == specs[w]);
            assert(rest[h] == specs[h]);
        } else {
            assert(widest(rest, pages) == 0 && tallest(rest, pages) == 0);
        }
    }
}

/// One page per row: no row has a right page. Otherwise every row is a pair, but for the
/// last row where the pages do not come out even, and, where the first page stands
/// alone, the first row. A right page follows its left page.
pub proof fn law_spreads_pair_pages(pages: int, row: int)
    requires
        0 <= pages <= usize::MAX,
        0 <= row,
    ensures
        ({
            let single = row_specs(pages, Spread::Single);
            let odd = row_specs(pages, Spread::Odd);
            let even = row_specs(pages, Spread::Even);
            &&& row < single.len() ==> single[row].right is None
            &&& row + 1 < odd.len() ==> odd[row].right is Some
            &&& 0 < row && row + 1 < even.len() ==> even[row].right is Some
            &&& pages > 0 ==> even[0].right is None
            &&& row < odd.len() ==> (odd[row].right matches Some(right) ==> right == odd[row].left
                + 1)
            &&& row < even.len() ==> (even[row].right matches Some(right) ==> right
                == even[row].left + 1)
        }),
{
}

/// The toolbar numbers the spread modes in the order in which it offers them.
pub proof fn law_spread_modes_are_numbered(spread: Spread)
    ensures
        spread_number(spread) == 0 <==> spread == Spread::Single,
        spread_number(spread) == 1 <==> spread == Spread::Odd,
        spread_number(spread) == 2 <==> spread == Spread::Even,
{
}

/// The larger of two numbers is one of them, and no less than the other; so for the
/// smaller.
pub proof fn law_the_larger_and_the_smaller(a: int, b: int)
    ensures
        max(a, b) == a || max(a, b) == b,
        max(a, b) >= a && max(a, b) >= b,
        min(a, b) == a || min(a, b) == b,
        min(a, b) <= a && min(a, b) <= b,
{
}

/// Where rows mention a page more than once, the last mention counts, and in a row the
/// right side. A page that no row mentions is reported at the left of the first row.
pub proof fn law_the_last_mention_counts(specs: Seq<RowSpec>, spec: RowSpec, page: usize)
    requires
        specs.len() < usize::MAX,
    ensures
        ({
            let found = location(specs.push(spec), page as int);
            &&& spec.right == Some(page) ==> found.0 == specs.len() && found.1
            &&& spec.right != Some(page) && spec.left == page ==> found.0 == specs.len() && !found.1
            &&& spec.right != Some(page) && spec.left != page ==> found == location(
                specs,
                page as int,
            )
            &&& location(Seq::empty(), page as int) == (0usize, false)
        }),
{
    assert(specs.push(spec).drop_last() =~= specs);
}

/// One more row makes the reference as large as it has to be for that row, and no
/// larger. Without rows it is nothing.
pub proof fn law_the_reference_grows_with_the_rows(
    specs: Seq<RowSpec>,
    spec: RowSpec,
    pages: Seq<PageSize>,
)
    ensures
        ({
            let width = row_width_pt(spec, pages);
            let height = row_height_pt(spec, pages);
            let more = specs.push(spec);
            &&& width >= widest(specs, pages) ==> widest(more, pages) == width
            &&& width <= widest(specs, pages) ==> widest(more, pages) == widest(specs, pages)
            &&& height >= tallest(specs, pages) ==> tallest(more, pages) == height
            &&& height <= tallest(specs, pages) ==> tallest(more, pages) == tallest(specs, pages)
            &&& widest(Seq::empty(), pages) == 0
            &&& tallest(Seq::empty(), pages) == 0
        }),
{
    assert(specs.push(spec).drop_last() =~= specs);
}

}
