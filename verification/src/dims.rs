//! Tile dimensions: how wide a half, a third and two thirds of the usable
//! area are once the visible gaps between tiles are taken off.
use vstd::prelude::*;

use crate::area::{at_least_one, in_i32, UsableArea};
use crate::gaps::Gaps;

verus! {

/// Tile dimensions in visible-frame space (borders are drawn outside).
///
/// `gap_h` / `gap_v` are the visible space between adjacent tile frames.
/// Hyprland applies `gaps_in` on each side of a tile, so the visible gap
/// between two neighbours is `2 * gaps_in`.
#[derive(Debug, Clone, Copy, PartialEq, Eq, Structural)]
pub struct Dimensions {
    pub half_width: i32,
    pub half_height: i32,
    pub third_width: i32,
    pub two_third_width: i32,
    pub gap_h: i32,
    pub gap_v: i32,
}

/// The larger of two integers.
pub open spec fn max_int(a: int, b: int) -> int {
    if a >= b {
        a
    } else {
        b
    }
}

/// `a / b` rounded toward zero, as Rust's integer division does (`b > 0`).
pub open spec fn div_toward_zero(a: int, b: int) -> int
    recommends
        b > 0,
{
    if a >= 0 {
        a / b
    } else {
        -((-a) / b)
    }
}

/// Visible horizontal gap: twice the larger of the left and right gaps.
pub open spec fn spec_gap_h(inner: Gaps) -> int {
    2 * max_int(inner.left as int, inner.right as int)
}

/// Visible vertical gap: twice the larger of the top and bottom gaps.
pub open spec fn spec_gap_v(inner: Gaps) -> int {
    2 * max_int(inner.top as int, inner.bottom as int)
}

/// One of two tiles side by side along a length `len` with a gap `gap`
/// between them; when the gap does not fit, plain half the length; never
/// below one pixel.
pub open spec fn spec_half(len: int, gap: int) -> int {
    at_least_one(
        if len > gap {
            div_toward_zero(len - gap, 2)
        } else {
            div_toward_zero(len, 2)
        },
    )
}

/// One of three tiles side by side along `len` with two gaps `gap` between
/// them; when the gaps do not fit, plain a third; never below one pixel.
pub open spec fn spec_third(len: int, gap: int) -> int {
    at_least_one(
        if len > 2 * gap {
            div_toward_zero(len - 2 * gap, 3)
        } else {
            div_toward_zero(len, 3)
        },
    )
}

/// Two thirds: two third-tiles and the gap between them.
pub open spec fn spec_two_third(len: int, gap: int) -> int {
    2 * spec_third(len, gap) + gap
}

/// All tile dimensions fit in `i32`.
pub open spec fn dimensions_fit(area: UsableArea, inner: Gaps) -> bool {
    &&& in_i32(spec_gap_h(inner))
    &&& in_i32(spec_gap_v(inner))
    &&& in_i32(spec_two_third(area.width as int, spec_gap_h(inner)))
}

/// The tile dimensions of `area` with inner gaps `inner`.
pub open spec fn spec_dimensions(area: UsableArea, inner: Gaps) -> Dimensions {
    let gap_h = spec_gap_h(inner);
    let gap_v = spec_gap_v(inner);
    Dimensions {
        half_width: spec_half(area.width as int, gap_h) as i32,
        half_height: spec_half(area.height as int, gap_v) as i32,
        third_width: spec_third(area.width as int, gap_h) as i32,
        two_third_width: spec_two_third(area.width as int, gap_h) as i32,
        gap_h: gap_h as i32,
        gap_v: gap_v as i32,
    }
}

fn max_wide(a: i64, b: i64) -> (r: i64)
    ensures
        r == max_int(a as int, b as int),
{
    if a >= b {
        a
    } else {
        b
    }
}

fn at_least_one_wide(v: i64) -> (r: i64)
    ensures
        r == at_least_one(v as int),
{
    if v < 1 {
        1
    } else {
        v
    }
}

fn half_wide(len: i64, gap: i64) -> (r: i64)
    requires
        in_i32(len as int),
        -0x1_0000_0000 <= gap <= 0x1_0000_0000,
    ensures
        r == spec_half(len as int, gap as int),
        1 <= r <= 0x4_0000_0000,
{
    let v = if len > gap {
        (len - gap) / 2
    } else {
        len / 2
    };
    at_least_one_wide(v)
}

fn third_wide(len: i64, gap: i64) -> (r: i64)
    requires
        in_i32(len as int),
        -0x1_0000_0000 <= gap <= 0x1_0000_0000,
    ensures
        r == spec_third(len as int, gap as int),
        1 <= r <= 0x4_0000_0000,
{
    let double_gap = gap * 2;
    let v = if len > double_gap {
        (len - double_gap) / 3
    } else {
        len / 3
    };
    at_least_one_wide(v)
}

/// The tile dimensions, computed without overflow.
fn dimensions_wide(area: &UsableArea, inner: &Gaps) -> (r: (i64, i64, i64, i64, i64, i64))
    ensures
        r.0 == spec_half(area.width as int, spec_gap_h(*inner)),
        r.1 == spec_half(area.height as int, spec_gap_v(*inner)),
        r.2 == spec_third(area.width as int, spec_gap_h(*inner)),
        r.3 == spec_two_third(area.width as int, spec_gap_h(*inner)),
        r.4 == spec_gap_h(*inner),
        r.5 == spec_gap_v(*inner),
{
    let gap_h = max_wide(inner.left as i64, inner.right as i64) * 2;
    let gap_v = max_wide(inner.top as i64, inner.bottom as i64) * 2;
    let half_width = half_wide(area.width as i64, gap_h);
    let half_height = half_wide(area.height as i64, gap_v);
    let third_width = third_wide(area.width as i64, gap_h);
    let two_third_width = third_width * 2 + gap_h;
    (half_width, half_height, third_width, two_third_width, gap_h, gap_v)
}

/// The tile dimensions of `area` all fit in `i32`; `calculate_dimensions`
/// asks for no more.
pub fn dimensions_in_range(area: &UsableArea, inner_gaps: &Gaps) -> (ok: bool)
    ensures
        ok == dimensions_fit(*area, *inner_gaps),
{
    let (_, _, _, two_third, gap_h, gap_v) = dimensions_wide(area, inner_gaps);
    let lo = i32::MIN as i64;
    let hi = i32::MAX as i64;
    lo <= gap_h && gap_h <= hi && lo <= gap_v && gap_v <= hi && lo <= two_third && two_third
        <= hi
}

/// Compute tile dimensions for the given visible-frame usable area.
///
/// For asymmetric inner gaps, the larger edge wins so adjacent tiles never
/// overlap — overshoot by a few pixels is less noticeable than overlap.
pub fn calculate_dimensions(area: &UsableArea, inner_gaps: &Gaps) -> (d: Dimensions)
    requires
        dimensions_fit(*area, *inner_gaps),
    ensures
        d == spec_dimensions(*area, *inner_gaps),
        d.half_width >= 1,
        d.half_height >= 1,
        d.third_width >= 1,
        d.two_third_width == d.third_width * 2 + d.gap_h,
        d.gap_h == 2 * max_int(inner_gaps.left as int, inner_gaps.right as int),
        d.gap_v == 2 * max_int(inner_gaps.top as int, inner_gaps.bottom as int),
        d.gap_h >= 2 * inner_gaps.left && d.gap_h >= 2 * inner_gaps.right,
        d.gap_h == 2 * inner_gaps.left || d.gap_h == 2 * inner_gaps.right,
        d.gap_v >= 2 * inner_gaps.top && d.gap_v >= 2 * inner_gaps.bottom,
        d.gap_v == 2 * inner_gaps.top || d.gap_v == 2 * inner_gaps.bottom,
{
    let (half_width, half_height, third_width, two_third_width, gap_h, gap_v) = dimensions_wide(
        area,
        inner_gaps,
    );
    Dimensions {
        half_width: half_width as i32,
        half_height: half_height as i32,
        third_width: third_width as i32,
        two_third_width: two_third_width as i32,
        gap_h: gap_h as i32,
        gap_v: gap_v as i32,
    }
}

/// Two half tiles side by side, with the gap between them, fit in the
/// length they split and leave at most one pixel of it unused, none when
/// the length minus the gap is even; this holds whenever each tile gets at
/// least one pixel (`len >= gap + 2`).
pub proof fn lemma_halves_fill_length(len: int, gap: int)
    requires
        len >= gap + 2,
    ensures
        2 * spec_half(len, gap) + gap <= len,
        len - (2 * spec_half(len, gap) + gap) <= 1,
        (len - gap) % 2 == 0 ==> 2 * spec_half(len, gap) + gap == len,
{
}

/// Three third tiles side by side, with the two gaps between them, fit in
/// the length they split and leave at most two pixels of it unused, none
/// when the length minus the gaps is a multiple of three; this holds
/// whenever each tile gets at least one pixel (`len >= 2 * gap + 3`).
pub proof fn lemma_thirds_fill_length(len: int, gap: int)
    requires
        len >= 2 * gap + 3,
    ensures
        3 * spec_third(len, gap) + 2 * gap <= len,
        len - (3 * spec_third(len, gap) + 2 * gap) <= 2,
        (len - 2 * gap) % 3 == 0 ==> 3 * spec_third(len, gap) + 2 * gap == len,
{
}

/// When the gap does not fit, a half tile is plain half the length
/// (rounded down), but never below one pixel.
pub proof fn lemma_half_without_room_for_gap(len: int, gap: int)
    requires
        0 <= len <= gap,
    ensures
        spec_half(len, gap) == at_least_one(len / 2),
{
}

/// The tiles of `calculate_dimensions` fill the usable area: two half
/// tiles and the visible gap fill its width and its height, three thirds
/// and two gaps its width, each up to the rounding of the division, and a
/// two-third tile with a third tile and a gap fill the width as the three
/// thirds do.
pub proof fn lemma_tiles_fill_area(area: UsableArea, inner: Gaps)
    requires
        dimensions_fit(area, inner),
    ensures
        ({
            let d = spec_dimensions(area, inner);
            &&& area.width >= d.gap_h + 2 ==> {
                &&& 2 * d.half_width + d.gap_h <= area.width
                &&& area.width - (2 * d.half_width + d.gap_h) <= 1
            }
            &&& area.height >= d.gap_v + 2 ==> {
                &&& 2 * d.half_height + d.gap_v <= area.height
                &&& area.height - (2 * d.half_height + d.gap_v) <= 1
            }
            &&& area.width >= 2 * d.gap_h + 3 ==> {
                &&& 3 * d.third_width + 2 * d.gap_h <= area.width
                &&& area.width - (3 * d.third_width + 2 * d.gap_h) <= 2
                &&& d.two_third_width + d.gap_h + d.third_width == 3 * d.third_width + 2 * d.gap_h
            }
        }),
{
    let gap_h = spec_gap_h(inner);
    let gap_v = spec_gap_v(inner);
    if area.width >= gap_h + 2 {
        lemma_halves_fill_length(area.width as int, gap_h);
    }
    if area.height >= gap_v + 2 {
        lemma_halves_fill_length(area.height as int, gap_v);
    }
    if area.width >= 2 * gap_h + 3 {
        lemma_thirds_fill_length(area.width as int, gap_h);
    }
}

/// The larger edge wins: the visible horizontal gap is twice the larger of
/// the left and right inner gaps, the vertical one twice the larger of the
/// top and bottom gaps, so that neighbouring tiles never overlap.
pub proof fn lemma_larger_gap_wins(inner: Gaps)
    ensures
        spec_gap_h(inner) >= 2 * inner.left && spec_gap_h(inner) >= 2 * inner.right,
        spec_gap_h(inner) == 2 * inner.left || spec_gap_h(inner) == 2 * inner.right,
        spec_gap_v(inner) >= 2 * inner.top && spec_gap_v(inner) >= 2 * inner.bottom,
        spec_gap_v(inner) == 2 * inner.top || spec_gap_v(inner) == 2 * inner.bottom,
{
}

/// A half tile, when the gap fits (`len > gap`), is the length less the
/// gap, halved and rounded down, and never below one pixel: twice it plus
/// the gap is at most the length, and adding one pixel to it would exceed
/// the length.
pub proof fn lemma_half_is_largest_fitting(len: int, gap: int)
    requires
        len > gap,
    ensures
        spec_half(len, gap) >= 1,
        len - gap >= 2 ==> 2 * spec_half(len, gap) + gap <= len,
        2 * (spec_half(len, gap) + 1) + gap > len,
{
}

/// A third tile, when the gaps fit (`len > 2 * gap`), is the length less
/// two gaps, divided by three and rounded down, never below one pixel:
/// three of them and two gaps fit in the length, one pixel more would not.
pub proof fn lemma_third_is_largest_fitting(len: int, gap: int)
    requires
        len > 2 * gap,
    ensures
        spec_third(len, gap) >= 1,
        len - 2 * gap >= 3 ==> 3 * spec_third(len, gap) + 2 * gap <= len,
        3 * (spec_third(len, gap) + 1) + 2 * gap > len,
{
}

} // verus!
