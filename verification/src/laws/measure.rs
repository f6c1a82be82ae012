//! What the lengths, rows and numbers mean that everything else is stated with.

use vstd::prelude::*;

use super::lemma_rows;
use crate::geometry::{density_at, nearest_row, on_screen, render_scale};
use crate::layout::{
    law_each_page_has_one_place, law_reference_covers_every_row, law_rows_keep_page_order,
    lemma_specs_within, max, min, page_slot, row_height_pt, row_specs, row_width_pt, PageSize, Spread,
};
use crate::model::Model;

verus! {

/// A point takes four thirds of a pixel at 100%, and twice that at 200%: pixels are
/// points times zoom times 4/3, rounded down.
pub proof fn law_points_take_four_thirds_of_a_pixel(points: int, zoom: int)
    ensures
        3_000_000 * on_screen(points, zoom) <= 4 * (points * zoom),
        4 * (points * zoom) < 3_000_000 * (on_screen(points, zoom) + 1),
        3 * density_at(zoom) <= 4 * zoom < 3 * (density_at(zoom) + 1),
{
}

/// Pages are rendered at the density at which they are shown, times the display's
/// scale factor.
pub proof fn law_pages_are_rendered_at_the_density_of_the_display(m: Model)
    ensures
        m.scale() == render_scale(m.zoom, m.scale_factor),
        3_000_000 * m.scale() <= 4 * (m.zoom * m.scale_factor),
        4 * (m.zoom * m.scale_factor) < 3_000_000 * (m.scale() + 1),
{
}

/// Without a known viewport nothing is in view.
pub proof fn law_an_unknown_view_is_empty(m: Model)
    ensures
        m.view is None ==> m.view_size() == (0int, 0int),
        m.view matches Some(size) ==> m.view_size() == size,
{
}

/// All rows are as high as the highest page of the document, and a gap of 16 pixels.
pub proof fn law_rows_are_as_high_as_the_highest_page(m: Model, page: int)
    requires
        m.wf(),
        0 <= page < m.pages.len(),
    ensures
        on_screen(m.pages[page].height as int, m.zoom) + 16_000_000 <= m.pitch(),
        exists|highest: int|
            0 <= highest < m.pages.len() && m.pitch() == on_screen(
                (#[trigger] m.pages[highest]).height as int,
                m.zoom,
            ) + 16_000_000,
{
    let specs = m.specs();
    law_each_page_has_one_place(m.pages.len() as int, m.spread, page);
    law_reference_covers_every_row(specs, m.pages);
    lemma_specs_within(m.pages.len() as int, m.spread);
    let row = page_slot(m.spread, page).0;
    assert(m.pages[page].height <= row_height_pt(specs[row], m.pages) <= m.ref_h());
    assert(m.pages[page].height * m.zoom <= m.ref_h() * m.zoom) by (nonlinear_arith)
        requires
            m.pages[page].height <= m.ref_h(),
            m.zoom >= 0,
    ;
    let tall = choose|row: int|
        0 <= row < specs.len() && row_height_pt(#[trigger] specs[row], m.pages) == m.ref_h();
    let spec = specs[tall];
    if m.pages[spec.left as int].height == m.ref_h() {
        assert(m.pages[spec.left as int].height as int == m.ref_h());
    } else {
        let right = spec.right.unwrap();
        assert(m.pages[right as int].height as int == m.ref_h());
    }
}

/// The reference width is that of the widest row, its pages side by side; the
/// reference height that of the highest page.
pub proof fn law_the_reference_is_made_of_pages(m: Model, page: int)
    requires
        m.wf(),
        0 <= page < m.pages.len(),
    ensures
        m.pages[page].height <= m.ref_h(),
        m.pages[page].width <= m.ref_w(),
        page + 1 < m.pages.len() && page_slot(m.spread, page).0 == page_slot(m.spread, page + 1).0
            ==> m.pages[page].width + m.pages[page + 1].width <= m.ref_w(),
        exists|widest: int|
            0 <= widest < m.pages.len() && (m.ref_w() == (#[trigger] m.pages[widest]).width || (
            widest + 1 < m.pages.len() && page_slot(m.spread, widest).0 == page_slot(
                m.spread,
                widest + 1,
            ).0 && m.ref_w() == m.pages[widest].width + m.pages[widest + 1].width)),
{
    let specs = m.specs();
    law_each_page_has_one_place(m.pages.len() as int, m.spread, page);
    law_reference_covers_every_row(specs, m.pages);
    lemma_specs_within(m.pages.len() as int, m.spread);
    let row = page_slot(m.spread, page).0;
    assert(row_height_pt(specs[row], m.pages) <= m.ref_h());
    assert(row_width_pt(specs[row], m.pages) <= m.ref_w());
    if page + 1 < m.pages.len() {
        law_each_page_has_one_place(m.pages.len() as int, m.spread, page + 1);
    }
    let wide = choose|row: int|
        0 <= row < specs.len() && row_width_pt(#[trigger] specs[row], m.pages) == m.ref_w();
    let spec = specs[wide];
    let left = spec.left as int;
    assert(row_width_pt(spec, m.pages) == m.ref_w());
    if let Some(right) = spec.right {
        law_each_page_has_one_place(m.pages.len() as int, m.spread, left);
        law_each_page_has_one_place(m.pages.len() as int, m.spread, right as int);
        assert(right == left + 1);
    }
    assert(m.pages[left].width >= 0);
}

/// The list can be scrolled until the bottom of the last row meets the bottom of the
/// view, and not at all where all rows are in view.
pub proof fn law_the_list_ends_with_the_last_row(m: Model)
    ensures
        ({
            let end = m.specs().len() * m.pitch();
            let limit = m.scroll_limit();
            &&& limit >= 0
            &&& end <= m.view_size().1 ==> limit == 0
            &&& end >= m.view_size().1 ==> limit + m.view_size().1 == end
        }),
{
}

/// The topmost row on screen is the one that the upper edge of the view is in. The
/// last row that counts as visible is at most the second one that starts below the
/// view.
pub proof fn law_visible_rows_are_those_in_view(m: Model)
    requires
        m.wf(),
        m.pages.len() > 0,
    ensures
        m.top_row() * m.pitch() <= m.scroll < (m.top_row() + 1) * m.pitch(),
        0 <= m.bottom_row() < m.specs().len(),
        m.view_size().1 > 0 ==> (m.bottom_row() - m.top_row() - 2) * m.pitch() < m.view_size().1,
        m.view_size().1 > 0 && m.bottom_row() < m.specs().len() - 1 ==> (m.bottom_row()
            - m.top_row() - 1) * m.pitch() >= m.view_size().1,
        m.view_size().1 <= 0 ==> m.bottom_row() <= m.top_row() + 1,
        m.view_size().1 <= 0 && m.bottom_row() < m.specs().len() - 1 ==> m.bottom_row()
            == m.top_row() + 1,
{
    lemma_rows(m);
    super::requests::lemma_on_screen_rows(m);
    let pitch = m.pitch();
    let top = m.top_row();
    let height = m.view_size().1;
    vstd::arithmetic::div_mod::lemma_fundamental_div_mod(m.scroll, pitch);
    vstd::arithmetic::div_mod::lemma_mod_bound(m.scroll, pitch);
    assert(top * pitch == pitch * top && (top + 1) * pitch == pitch * top + pitch)
        by (nonlinear_arith);
    if height > 0 {
        let span = (height + pitch - 1) / pitch;
        vstd::arithmetic::div_mod::lemma_fundamental_div_mod(height + pitch - 1, pitch);
        vstd::arithmetic::div_mod::lemma_mod_bound(height + pitch - 1, pitch);
        let shown = m.bottom_row() - top;
        assert(shown <= span + 1);
        assert((shown - 2) * pitch <= (span - 1) * pitch) by (nonlinear_arith)
            requires
                shown <= span + 1,
                pitch > 0,
        ;
        assert((span - 1) * pitch == pitch * span - pitch) by (nonlinear_arith);
        if m.bottom_row() < m.specs().len() - 1 {
            assert(shown - 1 == span);
            assert((shown - 1) * pitch == pitch * span) by (nonlinear_arith)
                requires
                    shown - 1 == span,
            ;
        }
    }
}

/// Halfway between two rows the lower one is the nearest.
pub proof fn law_halfway_belongs_to_the_lower_row(row: int, pitch: int)
    requires
        row >= 0,
        pitch > 0,
    ensures
        nearest_row(row * (2 * pitch) + pitch, 2 * pitch) == row + 1,
        forall|offset: int| offset <= 0 ==> #[trigger] nearest_row(offset, pitch) == 0,
{
    let offset = row * (2 * pitch) + pitch;
    assert(row * (2 * pitch) >= 0) by (nonlinear_arith)
        requires
            row >= 0,
            pitch > 0,
    ;
    vstd::arithmetic::div_mod::lemma_fundamental_div_mod_converse(
        offset,
        2 * pitch,
        row,
        pitch,
    );
    crate::geometry::lemma_nearest_row(offset, 2 * pitch);
}

/// In paged mode the current row is shown page by page: one page, or two side by side
/// with four pixels between them, as high as the higher of the two.
pub proof fn law_paged_content_is_the_current_row(m: Model)
    requires
        m.wf(),
        m.pages.len() > 0,
    ensures
        ({
            let spec = m.specs()[m.current_row];
            let left = m.pages[spec.left as int];
            match spec.right {
                None => {
                    &&& m.paged_content().0 == on_screen(left.width as int, m.zoom)
                    &&& m.paged_content().1 == on_screen(left.height as int, m.zoom)
                },
                Some(right) => {
                    let right = m.pages[right as int];
                    &&& m.paged_content().0 == on_screen(left.width + right.width, m.zoom)
                        + 4_000_000
                    &&& left.height >= right.height ==> m.paged_content().1 == on_screen(
                        left.height as int,
                        m.zoom,
                    )
                    &&& left.height <= right.height ==> m.paged_content().1 == on_screen(
                        right.height as int,
                        m.zoom,
                    )
                },
            }
        }),
{
    lemma_rows(m);
}

/// Paged content can be scrolled until its far edge meets that of the view, and not at
/// all in a direction in which it is all in view.
pub proof fn law_paged_content_ends_with_the_page(m: Model)
    ensures
        ({
            let content = m.paged_content();
            let view = m.view_size();
            let limit = m.paged_limit();
            &&& content.0 <= view.0 ==> limit.0 == 0
            &&& content.0 >= view.0 ==> limit.0 + view.0 == content.0
            &&& content.1 <= view.1 ==> limit.1 == 0
            &&& content.1 >= view.1 ==> limit.1 + view.1 == content.1
        }),
{
}

/// The toolbar shows the right number for where the view is. In paged mode, and in a
/// list that reaches on by more than a pixel below the view or does not fill it, that
/// is the left page of the current row; on the last row of paged mode, and at the end
/// of a list, it is the last page.
pub open spec fn toolbar_shows_the_page(m: Model) -> bool {
    let end = m.specs().len() * m.pitch();
    let below = end - m.scroll - m.view_size().1;
    let last = m.window.current_page == m.pages.len();
    let left = m.window.current_page == m.specs()[m.current_row].left + 1;
    &&& m.continuous && end <= m.view_size().1 ==> left
    &&& m.continuous && below > 1_000_000 ==> left
    &&& m.continuous && end > m.view_size().1 && below <= 1_000_000 ==> last
    &&& !m.continuous && m.current_row + 1 < m.specs().len() ==> left
    &&& !m.continuous && m.current_row + 1 == m.specs().len() ==> last
}

/// Wherever a list is scrolled to or a page is turned, the toolbar follows: after a
/// scroll, an arrow key, a jump to a row, and a change of the reading or spread mode.
pub proof fn law_the_toolbar_follows(
    m: Model,
    offset: int,
    delta: int,
    row: int,
    continuous: bool,
)
    requires
        m.wf(),
        m.pages.len() > 0,
        row >= 0,
    ensures
        toolbar_shows_the_page(m.scrolled(offset)),
        toolbar_shows_the_page(m.scroll_by(delta)),
        toolbar_shows_the_page(m.scroll_to_row(row)),
        m.continuous != continuous ==> toolbar_shows_the_page(m.set_continuous(continuous)),
{
    lemma_rows(m);
    if offset > 0 {
        crate::geometry::lemma_nearest_row(offset, m.pitch());
    }
}

/// Turning the page in paged mode brings the toolbar along.
pub proof fn law_the_toolbar_follows_the_page(m: Model, delta_x: int, delta_y: int)
    requires
        m.wf(),
        m.paged_scroll(delta_x, delta_y, false).current_row != m.current_row,
    ensures
        toolbar_shows_the_page(m.paged_scroll(delta_x, delta_y, false)),
{
    lemma_rows(m);
}

proof fn lemma_numbered(m: Model)
    requires
        0 <= m.current_row < m.specs().len(),
    ensures
        toolbar_shows_the_page(m.update_current_page()),
{
}

/// What a change of the spread mode does to the rows and the current one.
proof fn lemma_respread(m: Model, mode: int)
    ensures
        ({
            let after = m.set_spread(mode);
            let count = row_specs(m.pages.len() as int, after.spread).len();
            &&& after.pages == m.pages
            &&& after.current_row == min(m.current_row, max(count - 1, 0))
            &&& after == after.update_current_page()
        }),
{
}

/// A change of the spread mode brings the toolbar along.
pub proof fn law_the_toolbar_follows_the_spread(m: Model, mode: int)
    requires
        m.wf(),
        m.pages.len() > 0,
    ensures
        toolbar_shows_the_page(m.set_spread(mode)),
{
    let after = m.set_spread(mode);
    lemma_respread(m, mode);
    law_rows_keep_page_order(m.pages.len() as int, after.spread);
    lemma_numbered(after);
}

/// A fresh viewer shows the first page.
pub proof fn law_a_new_viewer_is_on_page_one(pages: Seq<PageSize>, scale_factor: int)
    requires
        0 < pages.len() <= i32::MAX,
    ensures
        toolbar_shows_the_page(Model::new(pages, scale_factor)),
{
    law_rows_keep_page_order(pages.len() as int, Spread::Single);
}

}
