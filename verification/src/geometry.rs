//! Lengths, zoom and scroll positions.
//!
//! All lengths are whole micro-units: a page size counts millionths of a point,
//! an on-screen length millionths of a logical pixel, and a zoom or scale factor
//! millionths of 1. Arithmetic is exact; a quotient is rounded down.

use vstd::prelude::*;

use crate::layout::max;

verus! {

/// Micro-units per unit: one pixel, one point, or a factor of 1.
pub const MICRO: i128 = 1_000_000;

pub const MIN_ZOOM: i128 = 100_000;

pub const MAX_ZOOM: i128 = 8_000_000;

/// Room left for the scrollbar and a small gutter when fitting.
pub const FIT_GUTTER: i128 = 24_000_000;

/// Vertical gap added to each row's height. Must match the gap in the window's
/// row delegate so scroll-offset math matches the on-screen layout.
pub const ROW_GAP: i128 = 16_000_000;

/// How far an arrow key scrolls when the page is taller than the viewport.
pub const SCROLL_STEP: i128 = 120_000_000;

/// Horizontal gap between the two pages of a spread. Must match the spacing of
/// the window's paged content layout.
pub const SPREAD_SPACING: i128 = 4_000_000;

/// The most points that two pages side by side can take.
pub const MAX_POINTS: i128 = 36_893_488_147_419_103_230;

/// More pixels than any row takes on screen.
pub const MAX_PIXELS: i128 = 1_000_000_000_000_000_000_000;

/// More pixels than all rows of a document take together.
pub const MAX_EXTENT: i128 = 3_000_000_000_000_000_000_000_000_000_000;

pub open spec fn clamp(x: int, low: int, high: int) -> int {
    if x < low {
        low
    } else if x > high {
        high
    } else {
        x
    }
}

/// Logical pixels per point at a zoom. At 100% a point takes 96/72 pixels, one
/// CSS pixel's worth of density, a comfortable default reading size.
pub open spec fn density_at(zoom: int) -> int {
    4 * zoom / 3
}

/// A length in points as it appears on screen: points times density.
pub open spec fn on_screen(points: int, zoom: int) -> int {
    4 * (points * zoom) / 3_000_000
}

/// The scale at which pages are rendered: density times the display's scale
/// factor.
pub open spec fn render_scale(zoom: int, scale_factor: int) -> int {
    4 * (zoom * scale_factor) / 3_000_000
}

/// The zoom at which `points` fill `space` pixels but for the gutter.
pub open spec fn fit_zoom(space: int, points: int) -> int {
    max(space - FIT_GUTTER, MICRO as int) * 3_000_000 / (4 * points)
}

/// The row whose top is nearest to an offset; halfway belongs to the lower row.
pub open spec fn nearest_row(offset: int, pitch: int) -> int {
    if offset <= 0 { 0 } else { (2 * offset + pitch) / (2 * pitch) }
}

/// How many rows a view of the given height can show parts of, less one.
pub open spec fn rows_spanned(height: int, pitch: int) -> int {
    if height <= 0 { 1 } else { (height + pitch - 1) / pitch + 1 }
}

pub proof fn lemma_on_screen_bounds(points: int, zoom: int)
    requires
        0 <= points <= MAX_POINTS,
        0 <= zoom <= MAX_ZOOM,
    ensures
        0 <= points * zoom <= MAX_POINTS * MAX_ZOOM,
        0 <= on_screen(points, zoom) <= MAX_PIXELS - 2 * ROW_GAP,
{
    assert(0 <= points * zoom <= MAX_POINTS * MAX_ZOOM) by (nonlinear_arith)
        requires
            0 <= points <= MAX_POINTS,
            0 <= zoom <= MAX_ZOOM,
    ;
    let product = points * zoom;
    assert(MAX_POINTS * MAX_ZOOM == 295_147_905_179_352_825_840_000_000);
    assert(4 * product / 3_000_000 <= MAX_PIXELS - 2 * ROW_GAP);
}

/// A length in points on screen.
pub fn to_pixels(points: i128, zoom: i128) -> (pixels: i128)
    requires
        0 <= points <= MAX_POINTS,
        0 <= zoom <= MAX_ZOOM,
    ensures
        pixels == on_screen(points as int, zoom as int),
        0 <= pixels <= MAX_PIXELS - 2 * ROW_GAP,
{
    proof {
        lemma_on_screen_bounds(points as int, zoom as int);
    }
    4 * (points * zoom) / 3_000_000
}

/// `x` limited to the range from `low` to `high`.
pub fn limit(x: i128, low: i128, high: i128) -> (limited: i128)
    ensures
        limited == clamp(x as int, low as int, high as int),
{
    if x < low {
        low
    } else if x > high {
        high
    } else {
        x
    }
}

/// The zoom at which `points` fill `space` pixels but for the gutter.
pub fn zoom_to_fit(space: i128, points: i128) -> (zoom: i128)
    requires
        i64::MIN <= space <= i64::MAX,
        0 < points <= MAX_POINTS,
    ensures
        zoom == fit_zoom(space as int, points as int),
        zoom >= 0,
{
    let room: i128 = if space - FIT_GUTTER > MICRO { space - FIT_GUTTER } else { MICRO };
    proof {
        let a = room * 3_000_000;
        let b = 4 * points;
        assert(a / b >= 0) by (nonlinear_arith)
            requires
                a >= 0,
                b > 0,
        ;
    }
    room * 3_000_000 / (4 * points)
}

/// The row whose top is nearest to an offset.
pub fn row_nearest(offset: i128, pitch: i128) -> (row: i128)
    requires
        ROW_GAP <= pitch <= MAX_PIXELS,
    ensures
        row == nearest_row(offset as int, pitch as int),
        row >= 0,
{
    if offset <= 0 {
        return 0;
    }
    let whole: i128 = offset / pitch;
    let part: i128 = offset % pitch;
    proof {
        lemma_nearest_row(offset as int, pitch as int);
        vstd::arithmetic::div_mod::lemma_div_is_ordered_by_denominator(
            offset as int,
            2,
            pitch as int,
        );
    }
    if 2 * part >= pitch {
        whole + 1
    } else {
        whole
    }
}

/// Rounding to the nearest row, by quotient and remainder.
pub proof fn lemma_nearest_row(offset: int, pitch: int)
    requires
        offset > 0,
        pitch > 0,
    ensures
        0 <= offset / pitch <= offset,
        0 <= offset % pitch < pitch,
        nearest_row(offset, pitch) == (if 2 * (offset % pitch) >= pitch {
            offset / pitch + 1
        } else {
            offset / pitch
        }),
{
    let q = offset / pitch;
    let r = offset % pitch;
    vstd::arithmetic::div_mod::lemma_fundamental_div_mod(offset, pitch);
    vstd::arithmetic::div_mod::lemma_div_pos_is_pos(offset, pitch);
    vstd::arithmetic::div_mod::lemma_div_is_ordered_by_denominator(offset, 1, pitch);
    assert(2 * offset + pitch == (2 * pitch) * q + (2 * r + pitch)) by (nonlinear_arith)
        requires
            offset == pitch * q + r,
    ;
    if 2 * r >= pitch {
        assert((2 * pitch) * q + (2 * r + pitch) == (q + 1) * (2 * pitch) + (2 * r - pitch))
            by (nonlinear_arith);
        vstd::arithmetic::div_mod::lemma_fundamental_div_mod_converse(
            2 * offset + pitch,
            2 * pitch,
            q + 1,
            2 * r - pitch,
        );
    } else {
        assert((2 * pitch) * q == q * (2 * pitch)) by (nonlinear_arith);
        vstd::arithmetic::div_mod::lemma_fundamental_div_mod_converse(
            2 * offset + pitch,
            2 * pitch,
            q,
            2 * r + pitch,
        );
    }
}

/// A limited number is within its range, it is the number itself where that is within,
/// and otherwise the end that the number is beyond.
pub proof fn law_limits_are_kept(x: int, low: int, high: int)
    requires
        low <= high,
    ensures
        low <= clamp(x, low, high) <= high,
        low <= x <= high ==> clamp(x, low, high) == x,
        x < low ==> clamp(x, low, high) == low,
        x > high ==> clamp(x, low, high) == high,
{
}

}
