//! Reading modes, zoom and fit.

use vstd::prelude::*;

use super::lemma_rows;
use crate::geometry::{
    clamp, density_at, fit_zoom, on_screen, MAX_ZOOM, MIN_ZOOM,
};
use crate::layout::{
    law_reference_covers_every_row, max, min, row_height_pt, row_width_pt, PageSize,
};
use crate::model::{FitMode, Model};

verus! {

/// The zoom is the one that the active fit mode asks for, if one is active and
/// there is something to fit.
pub open spec fn fitted(m: Model) -> bool {
    m.fitting_zoom() matches Some(zoom) ==> m.zoom == clamp(
        zoom,
        MIN_ZOOM as int,
        MAX_ZOOM as int,
    )
}

/// A fresh viewer is fitted.
pub proof fn law_a_new_viewer_is_fitted(pages: Seq<PageSize>, scale_factor: int)
    ensures
        fitted(Model::new(pages, scale_factor)),
{
}

/// Switching between continuous and paged mode keeps the reading position: the
/// current row, and with it the page at the top of the view.
pub proof fn law_switching_modes_keeps_the_position(m: Model, continuous: bool)
    ensures
        m.set_continuous(continuous).current_row == m.current_row,
        m.set_continuous(continuous).rows == m.rows,
        m.set_continuous(continuous).continuous == continuous,
        m.set_continuous(continuous).window.continuous == continuous || m.continuous == continuous,
{
}

/// Switching the mode and back ends in the mode it started from, on the same row.
pub proof fn law_toggling_twice_restores_the_mode(m: Model)
    ensures
        ({
            let twice = m.set_continuous(!m.continuous).set_continuous(m.continuous);
            &&& twice.continuous == m.continuous
            &&& twice.window.continuous == m.continuous
            &&& twice.current_row == m.current_row
        }),
{
}

/// Returning to continuous mode scrolls the list to the top of the row that paged
/// mode left off on, or as near to it as the document goes.
pub proof fn law_returning_to_continuous_scrolls_to_the_row(m: Model)
    requires
        m.wf(),
        fitted(m),
        !m.continuous,
    ensures
        ({
            let after = m.set_continuous(true);
            &&& after.pitch() == m.pitch()
            &&& after.scroll == clamp(m.current_row * after.pitch(), 0, after.scroll_limit())
            &&& after.window.scroll_y == -after.scroll
        }),
{
}

/// Entering paged mode shows the current row from its top.
pub proof fn law_paged_mode_starts_at_the_top(m: Model)
    requires
        m.wf(),
        m.continuous,
        m.pages.len() > 0,
    ensures
        ({
            let after = m.set_continuous(false);
            &&& after.paged_x == 0
            &&& after.paged_y == 0
            &&& after.window.current_row_content == m.rows[m.current_row]
        }),
{
    lemma_rows(m);
}

/// Whatever zoom is asked for, the zoom stays within its limits, and the published
/// density is the one of that zoom.
pub proof fn law_zoom_stays_within_limits(m: Model, zoom: int)
    ensures
        ({
            let after = m.set_zoom(zoom);
            &&& MIN_ZOOM <= after.zoom <= MAX_ZOOM
            &&& MIN_ZOOM <= zoom <= MAX_ZOOM ==> after.zoom == zoom
            &&& after.window.density == density_at(after.zoom)
            &&& after.fit == FitMode::Free
        }),
{
}

/// Zooming in makes everything larger and zooming out makes it smaller, up to the
/// limits.
pub proof fn law_zooming_changes_the_zoom(m: Model)
    requires
        m.wf(),
    ensures
        m.zoom < MAX_ZOOM ==> m.zoom < m.zoom_in().zoom,
        m.zoom > MIN_ZOOM ==> m.zoom > m.zoom_out().zoom,
        m.zoom < MAX_ZOOM ==> m.window.density < m.zoom_in().window.density,
        m.zoom > MIN_ZOOM ==> m.window.density >= m.zoom_out().window.density,
{
}

/// Zooming out takes zooming in back, to the last millionth; exactly, if the zoom
/// can be divided by four. Left out are the zooms at which zooming in runs into
/// the limit.
pub proof fn law_zooming_out_undoes_zooming_in(m: Model)
    requires
        m.wf(),
        5 * m.zoom / 4 <= MAX_ZOOM,
    ensures
        m.zoom - 1 <= m.zoom_in().zoom_out().zoom <= m.zoom,
        m.zoom % 4 == 0 ==> m.zoom_in().zoom_out().zoom == m.zoom,
{
}

/// Resetting the zoom gives one hundred percent, whatever the zoom was.
pub proof fn law_zoom_reset_is_base_density(m: Model)
    ensures
        m.zoom_reset().zoom == 1_000_000,
        m.zoom_reset().window.density == density_at(1_000_000),
        m.zoom_reset().window.density == 1_333_333,
{
}

/// The room that fitting leaves in a view of the given extent.
pub open spec fn room(space: int) -> int {
    max(space - 24_000_000, 1_000_000)
}

/// What fits at the fitting zoom: no more than the room, and less only by what one
/// step of the zoom makes.
proof fn lemma_fit(space: int, points: int)
    requires
        points > 0,
    ensures
        fit_zoom(space, points) >= 0,
        on_screen(points, fit_zoom(space, points)) <= room(space),
        on_screen(points, fit_zoom(space, points) + 1) >= room(space),
{
    let a = room(space) * 3_000_000;
    let b = 4 * points;
    let z = a / b;
    vstd::arithmetic::div_mod::lemma_fundamental_div_mod(a, b);
    vstd::arithmetic::div_mod::lemma_mod_bound(a, b);
    vstd::arithmetic::div_mod::lemma_div_pos_is_pos(a, b);
    assert(b * z == 4 * (points * z)) by (nonlinear_arith)
        requires
            b == 4 * points,
    ;
    assert(4 * (points * (z + 1)) == b * z + b) by (nonlinear_arith)
        requires
            b == 4 * points,
    ;
}

/// A shorter length, or a smaller zoom, is shorter on screen.
proof fn lemma_on_screen_monotone(points: int, more: int, zoom: int, closer: int)
    requires
        0 <= points <= more,
        0 <= zoom <= closer,
    ensures
        on_screen(points, zoom) <= on_screen(more, closer),
{
    assert(points * zoom <= more * closer) by (nonlinear_arith)
        requires
            0 <= points <= more,
            0 <= zoom <= closer,
    ;
}

/// The pages of a row have a size.
proof fn lemma_row_size(m: Model, row: int)
    requires
        m.wf(),
        0 <= row < m.specs().len(),
    ensures
        0 <= row_width_pt(m.specs()[row], m.pages) <= m.ref_w(),
        0 <= row_height_pt(m.specs()[row], m.pages) <= m.ref_h(),
{
    law_reference_covers_every_row(m.specs(), m.pages);
}

/// Fitting to the width makes every row at most as wide as the view but for the
/// gutter, and the widest row spans that room to the last step of the zoom. Left
/// out are views so small or large that the zoom runs into a limit.
pub proof fn law_fit_width_spans_the_view(m: Model, row: int)
    requires
        m.wf(),
        m.view is Some,
        0 <= row < m.specs().len(),
        m.ref_w() > 0,
        m.ref_h() > 0,
        MIN_ZOOM <= fit_zoom(m.view_size().0, m.ref_w()) <= MAX_ZOOM,
    ensures
        ({
            let after = m.fit_to(FitMode::Width);
            &&& on_screen(row_width_pt(m.specs()[row], m.pages), after.zoom) <= room(
                m.view_size().0,
            )
            &&& on_screen(m.ref_w(), after.zoom) <= room(m.view_size().0) <= on_screen(
                m.ref_w(),
                after.zoom + 1,
            )
        }),
{
    lemma_row_size(m, row);
    lemma_fit(m.view_size().0, m.ref_w());
    let zoom = fit_zoom(m.view_size().0, m.ref_w());
    lemma_on_screen_monotone(row_width_pt(m.specs()[row], m.pages), m.ref_w(), zoom, zoom);
}

/// Fitting to the page makes every row fit the view but for the gutter, in both
/// directions, and at the next larger zoom some row would fill it. Left out are
/// views so small or large that the zoom runs into a limit.
pub proof fn law_fit_page_fits_every_row(m: Model, row: int)
    requires
        m.wf(),
        m.view is Some,
        0 <= row < m.specs().len(),
        m.ref_w() > 0,
        m.ref_h() > 0,
        MIN_ZOOM <= fit_zoom(m.view_size().0, m.ref_w()),
        MIN_ZOOM <= fit_zoom(m.view_size().1, m.ref_h()),
        fit_zoom(m.view_size().0, m.ref_w()) <= MAX_ZOOM || fit_zoom(m.view_size().1, m.ref_h())
            <= MAX_ZOOM,
    ensures
        ({
            let after = m.fit_to(FitMode::Page);
            let spec = m.specs()[row];
            &&& on_screen(row_width_pt(spec, m.pages), after.zoom) <= room(m.view_size().0)
            &&& on_screen(row_height_pt(spec, m.pages), after.zoom) <= room(m.view_size().1)
            &&& on_screen(m.ref_w(), after.zoom + 1) >= room(m.view_size().0) || on_screen(
                m.ref_h(),
                after.zoom + 1,
            ) >= room(m.view_size().1)
        }),
{
    let across = fit_zoom(m.view_size().0, m.ref_w());
    let down = fit_zoom(m.view_size().1, m.ref_h());
    let zoom = min(across, down);
    let spec = m.specs()[row];
    lemma_row_size(m, row);
    lemma_fit(m.view_size().0, m.ref_w());
    lemma_fit(m.view_size().1, m.ref_h());
    lemma_on_screen_monotone(row_width_pt(spec, m.pages), m.ref_w(), zoom, across);
    lemma_on_screen_monotone(row_height_pt(spec, m.pages), m.ref_h(), zoom, down);
}

/// A length in points takes no more than the room that fitting leaves, before
/// anything is rounded.
pub open spec fn fits(points: int, zoom: int, space: int) -> bool {
    4 * (points * zoom) <= 3_000_000 * room(space)
}

/// The pages of a row fit the view side by side; for a fit to the page, in height as
/// well. The gap between them is left out.
pub open spec fn row_fits(m: Model, row: int, fit: FitMode, zoom: int) -> bool {
    &&& fits(row_width_pt(m.specs()[row], m.pages), zoom, m.view_size().0)
    &&& fit == FitMode::Page ==> fits(
        row_height_pt(m.specs()[row], m.pages),
        zoom,
        m.view_size().1,
    )
}

pub open spec fn every_row_fits(m: Model, fit: FitMode, zoom: int) -> bool {
    forall|row: int| 0 <= row < m.specs().len() ==> #[trigger] row_fits(m, row, fit, zoom)
}

/// The fitting zoom is the largest at which the length fits.
proof fn lemma_largest_fit(space: int, points: int, zoom: int)
    requires
        points > 0,
    ensures
        fits(points, zoom, space) <==> zoom <= fit_zoom(space, points),
{
    let a = room(space) * 3_000_000;
    let b = 4 * points;
    let z = a / b;
    vstd::arithmetic::div_mod::lemma_fundamental_div_mod(a, b);
    vstd::arithmetic::div_mod::lemma_mod_bound(a, b);
    assert(4 * (points * zoom) == b * zoom) by (nonlinear_arith)
        requires
            b == 4 * points,
    ;
    if zoom <= z {
        assert(b * zoom <= b * z) by (nonlinear_arith)
            requires
                zoom <= z,
                b > 0,
        ;
    } else {
        assert(b * zoom >= b * z + b) by (nonlinear_arith)
            requires
                zoom >= z + 1,
                b > 0,
        ;
    }
}

/// What fits the longest length fits every shorter one.
proof fn lemma_shorter_fits(points: int, more: int, zoom: int, space: int)
    requires
        0 <= points <= more,
        zoom >= 0,
        fits(more, zoom, space),
    ensures
        fits(points, zoom, space),
{
    assert(points * zoom <= more * zoom) by (nonlinear_arith)
        requires
            0 <= points <= more,
            zoom >= 0,
    ;
}

/// Every row fits exactly up to the zoom that the fit mode asks for.
proof fn lemma_rows_fit(m: Model, fit: FitMode, zoom: int)
    requires
        m.wf(),
        m.view is Some,
        m.ref_w() > 0,
        m.ref_h() > 0,
        fit != FitMode::Free,
        zoom >= 0,
    ensures
        (Model { fit, ..m }).fitting_zoom() matches Some(asked) && (every_row_fits(m, fit, zoom)
            <==> zoom <= asked),
{
    let specs = m.specs();
    law_reference_covers_every_row(specs, m.pages);
    lemma_largest_fit(m.view_size().0, m.ref_w(), zoom);
    lemma_largest_fit(m.view_size().1, m.ref_h(), zoom);
    let across = fits(m.ref_w(), zoom, m.view_size().0);
    let down = fit == FitMode::Page ==> fits(m.ref_h(), zoom, m.view_size().1);
    if across && down {
        assert forall|row: int| 0 <= row < specs.len() implies #[trigger] row_fits(
            m,
            row,
            fit,
            zoom,
        ) by {
            lemma_row_size(m, row);
            lemma_shorter_fits(
                row_width_pt(specs[row], m.pages),
                m.ref_w(),
                zoom,
                m.view_size().0,
            );
            if fit == FitMode::Page {
                lemma_shorter_fits(
                    row_height_pt(specs[row], m.pages),
                    m.ref_h(),
                    zoom,
                    m.view_size().1,
                );
            }
        }
    } else if every_row_fits(m, fit, zoom) {
        assert(specs.len() > 0);
        let w = choose|row: int|
            0 <= row < specs.len() && row_width_pt(#[trigger] specs[row], m.pages) == m.ref_w();
        let h = choose|row: int|
            0 <= row < specs.len() && row_height_pt(#[trigger] specs[row], m.pages) == m.ref_h();
        assert(row_fits(m, w, fit, zoom));
        assert(row_fits(m, h, fit, zoom));
    }
    assert((Model { fit, ..m }).specs() == m.specs());
}

/// A fit takes the largest zoom within the limits at which every row fits the view,
/// and the smallest zoom there is if none does.
pub proof fn law_a_fit_takes_the_largest_zoom_that_fits(m: Model, fit: FitMode)
    requires
        m.wf(),
        m.view is Some,
        m.ref_w() > 0,
        m.ref_h() > 0,
        fit != FitMode::Free,
    ensures
        ({
            let zoom = m.fit_to(fit).zoom;
            &&& MIN_ZOOM <= zoom <= MAX_ZOOM
            &&& every_row_fits(m, fit, zoom) || zoom == MIN_ZOOM
            &&& forall|larger: int|
                zoom < larger <= MAX_ZOOM ==> !(#[trigger] every_row_fits(m, fit, larger))
            &&& m.fit_to(fit).window.density == density_at(zoom)
        }),
{
    let zoom = m.fit_to(fit).zoom;
    let fitting = Model { fit, ..m };
    lemma_rows_fit(m, fit, MIN_ZOOM as int);
    let asked = fitting.fitting_zoom().unwrap();
    assert(zoom == clamp(asked, MIN_ZOOM as int, MAX_ZOOM as int));
    lemma_rows_fit(m, fit, zoom);
    assert forall|larger: int| zoom < larger <= MAX_ZOOM implies !(#[trigger] every_row_fits(
        m,
        fit,
        larger,
    )) by {
        lemma_rows_fit(m, fit, larger);
    }
}

/// As long as the view is not known, and where the reader zooms freely, fitting
/// leaves the zoom and the density as they are.
pub proof fn law_without_a_view_or_a_fit_the_zoom_stays(m: Model, fit: FitMode)
    ensures
        m.view is None ==> m.fit_to(fit).zoom == m.zoom && m.fit_to(fit).window.density
            == m.window.density,
        m.fit == FitMode::Free ==> m.apply_fit() == m,
{
}

}
