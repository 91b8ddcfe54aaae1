//! Where a snap command puts the window, and the narrowing of window
//! coordinates to the 16-bit values the compositor's dispatcher takes.
use vstd::prelude::*;

use crate::area::{in_i32, UsableArea};
use crate::cli::Command;
use crate::dims::{
    calculate_dimensions, dimensions_fit, dimensions_in_range, div_toward_zero, lemma_tiles_fill_area,
    spec_dimensions, Dimensions,
};
use crate::gaps::Gaps;
use crate::state::Geometry;

verus! {

/// Percentage of usable area used by the `center` command (Rectangle.app parity).
pub const CENTER_SIZE_PERCENT: i32 = 75;

/// Which coordinate of a window placement is meant.
#[derive(Clone, Copy, Debug, PartialEq, Eq, Structural)]
pub enum Coordinate {
    X,
    Y,
    Width,
    Height,
}

impl Coordinate {
    /// The coordinate's name as it appears in messages.
    pub fn name(&self) -> (s: &'static str)
        ensures
            s@ == match *self {
                Coordinate::X => "x"@,
                Coordinate::Y => "y"@,
                Coordinate::Width => "width"@,
                Coordinate::Height => "height"@,
            },
    {
        match self {
            Coordinate::X => "x",
            Coordinate::Y => "y",
            Coordinate::Width => "width",
            Coordinate::Height => "height",
        }
    }
}

/// A coordinate that does not fit in the `i16` the dispatcher takes.
#[derive(Clone, Copy, Debug, PartialEq, Eq, Structural)]
pub struct I16Overflow {
    pub what: Coordinate,
    pub value: i32,
}

/// `v` is representable as an `i16`.
pub open spec fn in_i16(v: int) -> bool {
    i16::MIN <= v <= i16::MAX
}

/// Narrow `value`, the coordinate `what`, to an `i16`.
pub fn i16_or_overflow(value: i32, what: Coordinate) -> (r: Result<i16, I16Overflow>)
    ensures
        r is Ok <==> in_i16(value as int),
        r matches Ok(v) ==> v == value,
        r matches Err(e) ==> e == (I16Overflow { what, value }),
{
    if value < i16::MIN as i32 || value > i16::MAX as i32 {
        Err(I16Overflow { what, value })
    } else {
        Ok(value as i16)
    }
}

/// Narrow a placement to `i16`s; the first coordinate (in the order x, y,
/// width, height) that does not fit is reported.
pub fn to_i16_tuple(x: i32, y: i32, w: i32, h: i32) -> (r: Result<(i16, i16, i16, i16), I16Overflow>)
    ensures
        r is Ok <==> (in_i16(x as int) && in_i16(y as int) && in_i16(w as int) && in_i16(h as int)),
        r matches Ok(t) ==> t.0 == x && t.1 == y && t.2 == w && t.3 == h,
        r matches Err(e) ==> e == if !in_i16(x as int) {
            I16Overflow { what: Coordinate::X, value: x }
        } else if !in_i16(y as int) {
            I16Overflow { what: Coordinate::Y, value: y }
        } else if !in_i16(w as int) {
            I16Overflow { what: Coordinate::Width, value: w }
        } else {
            I16Overflow { what: Coordinate::Height, value: h }
        },
{
    let x = match i16_or_overflow(x, Coordinate::X) {
        Ok(v) => v,
        Err(e) => return Err(e),
    };
    let y = match i16_or_overflow(y, Coordinate::Y) {
        Ok(v) => v,
        Err(e) => return Err(e),
    };
    let w = match i16_or_overflow(w, Coordinate::Width) {
        Ok(v) => v,
        Err(e) => return Err(e),
    };
    let h = match i16_or_overflow(h, Coordinate::Height) {
        Ok(v) => v,
        Err(e) => return Err(e),
    };
    Ok((x, y, w, h))
}

/// Why a command produced no placement.
#[derive(Clone, Copy, Debug, PartialEq, Eq, Structural)]
pub enum ExecuteError {
    /// `Restore` moves a window back from the history, not by snapping.
    RestoreNotHandled,
}

/// Where a snap command puts the window in `area`, given its tile
/// dimensions `d`: (x, y, width, height).
///
/// Halves and quarters are separated from their neighbours by the visible
/// gap, thirds likewise; `Maximize` fills the area; `Center` is a box of
/// 75% of the area's width and height, centred in it.
pub open spec fn spec_placement(cmd: Command, area: UsableArea, d: Dimensions) -> (int, int, int, int) {
    let x = area.x as int;
    let y = area.y as int;
    let w = area.width as int;
    let h = area.height as int;
    let half_w = d.half_width as int;
    let half_h = d.half_height as int;
    let third = d.third_width as int;
    let two_third = d.two_third_width as int;
    let gap_h = d.gap_h as int;
    let gap_v = d.gap_v as int;
    match cmd {
        Command::Left => (x, y, half_w, h),
        Command::Right => (x + half_w + gap_h, y, half_w, h),
        Command::Up => (x, y, w, half_h),
        Command::Down => (x, y + half_h + gap_v, w, half_h),
        Command::TopLeft => (x, y, half_w, half_h),
        Command::TopRight => (x + half_w + gap_h, y, half_w, half_h),
        Command::BottomLeft => (x, y + half_h + gap_v, half_w, half_h),
        Command::BottomRight => (x + half_w + gap_h, y + half_h + gap_v, half_w, half_h),
        Command::LeftThird => (x, y, third, h),
        Command::CenterThird => (x + third + gap_h, y, third, h),
        Command::RightThird => (x + third * 2 + gap_h * 2, y, third, h),
        Command::LeftTwoThird => (x, y, two_third, h),
        Command::RightTwoThird => (x + third + gap_h, y, two_third, h),
        Command::Maximize => (x, y, w, h),
        Command::Center => {
            let cw = div_toward_zero(w * CENTER_SIZE_PERCENT, 100);
            let ch = div_toward_zero(h * CENTER_SIZE_PERCENT, 100);
            (x + div_toward_zero(w - cw, 2), y + div_toward_zero(h - ch, 2), cw, ch)
        },
        Command::Restore => (0, 0, 0, 0),
    }
}

/// The command's placement in `area` fits in `i32`, and so do the tile
/// dimensions it is computed from.
pub open spec fn placement_fits(cmd: Command, area: UsableArea, inner: Gaps) -> bool {
    &&& dimensions_fit(area, inner)
    &&& {
        let p = spec_placement(cmd, area, spec_dimensions(area, inner));
        &&& in_i32(p.0)
        &&& in_i32(p.1)
        &&& in_i32(p.2)
        &&& in_i32(p.3)
    }
}

/// The placement, computed without overflow.
fn placement_wide(cmd: Command, area: &UsableArea, d: &Dimensions) -> (r: (i64, i64, i64, i64))
    ensures
        r.0 == spec_placement(cmd, *area, *d).0,
        r.1 == spec_placement(cmd, *area, *d).1,
        r.2 == spec_placement(cmd, *area, *d).2,
        r.3 == spec_placement(cmd, *area, *d).3,
{
    let x = area.x as i64;
    let y = area.y as i64;
    let w = area.width as i64;
    let h = area.height as i64;
    let half_w = d.half_width as i64;
    let half_h = d.half_height as i64;
    let third = d.third_width as i64;
    let two_third = d.two_third_width as i64;
    let gap_h = d.gap_h as i64;
    let gap_v = d.gap_v as i64;
    match cmd {
        Command::Left => (x, y, half_w, h),
        Command::Right => (x + half_w + gap_h, y, half_w, h),
        Command::Up => (x, y, w, half_h),
        Command::Down => (x, y + half_h + gap_v, w, half_h),
        Command::TopLeft => (x, y, half_w, half_h),
        Command::TopRight => (x + half_w + gap_h, y, half_w, half_h),
        Command::BottomLeft => (x, y + half_h + gap_v, half_w, half_h),
        Command::BottomRight => (x + half_w + gap_h, y + half_h + gap_v, half_w, half_h),
        Command::LeftThird => (x, y, third, h),
        Command::CenterThird => (x + third + gap_h, y, third, h),
        Command::RightThird => (x + third * 2 + gap_h * 2, y, third, h),
        Command::LeftTwoThird => (x, y, two_third, h),
        Command::RightTwoThird => (x + third + gap_h, y, two_third, h),
        Command::Maximize => (x, y, w, h),
        Command::Center => {
            let percent = CENTER_SIZE_PERCENT as i64;
            let cw = w * percent / 100;
            let ch = h * percent / 100;
            (x + (w - cw) / 2, y + (h - ch) / 2, cw, ch)
        },
        Command::Restore => (0, 0, 0, 0),
    }
}

/// The placement of `cmd` in `area` and the tile dimensions behind it all
/// fit in `i32`; `execute` asks for no more.
pub fn placement_in_range(cmd: Command, area: &UsableArea, inner_gaps: &Gaps) -> (ok: bool)
    ensures
        ok == placement_fits(cmd, *area, *inner_gaps),
{
    if !dimensions_in_range(area, inner_gaps) {
        return false;
    }
    let d = calculate_dimensions(area, inner_gaps);
    let (x, y, w, h) = placement_wide(cmd, area, &d);
    let lo = i32::MIN as i64;
    let hi = i32::MAX as i64;
    lo <= x && x <= hi && lo <= y && y <= hi && lo <= w && w <= hi && lo <= h && h <= hi
}

/// Where the snap command `cmd` puts the window in `area` with inner gaps
/// `inner_gaps`. `Restore` is not a snap: it is refused.
pub fn execute(cmd: Command, area: &UsableArea, inner_gaps: &Gaps) -> (r: Result<Geometry, ExecuteError>)
    requires
        placement_fits(cmd, *area, *inner_gaps),
    ensures
        cmd == Command::Restore ==> r == Err::<Geometry, ExecuteError>(ExecuteError::RestoreNotHandled),
        cmd != Command::Restore ==> (r matches Ok(g) && {
            let p = spec_placement(cmd, *area, spec_dimensions(*area, *inner_gaps));
            g.x == p.0 && g.y == p.1 && g.width == p.2 && g.height == p.3
        }),
{
    let d = calculate_dimensions(area, inner_gaps);
    if cmd == Command::Restore {
        return Err(ExecuteError::RestoreNotHandled);
    }
    let (x, y, w, h) = placement_wide(cmd, area, &d);
    Ok(Geometry { x: x as i32, y: y as i32, width: w as i32, height: h as i32 })
}

/// The left and right halves sit side by side with the visible gap between
/// them and have the same size; both span the area's height. When the area
/// is wide enough for both (at least the gap and two pixels), the right
/// half ends inside the area, at most one pixel short of its right edge.
/// The top and bottom halves are placed the same way along the height.
pub proof fn lemma_halves_side_by_side(area: UsableArea, inner: Gaps)
    requires
        dimensions_fit(area, inner),
    ensures
        ({
            let d = spec_dimensions(area, inner);
            let left = spec_placement(Command::Left, area, d);
            let right = spec_placement(Command::Right, area, d);
            let up = spec_placement(Command::Up, area, d);
            let down = spec_placement(Command::Down, area, d);
            &&& left.0 == area.x && left.1 == area.y && left.3 == area.height
            &&& right.0 == left.0 + left.2 + d.gap_h && right.1 == left.1
            &&& right.2 == left.2 && right.3 == left.3
            &&& area.width >= d.gap_h + 2 ==> {
                &&& right.0 + right.2 <= area.x + area.width
                &&& area.x + area.width - (right.0 + right.2) <= 1
            }
            &&& up.0 == area.x && up.1 == area.y && up.2 == area.width
            &&& down.1 == up.1 + up.3 + d.gap_v && down.0 == up.0
            &&& down.2 == up.2 && down.3 == up.3
            &&& area.height >= d.gap_v + 2 ==> {
                &&& down.1 + down.3 <= area.y + area.height
                &&& area.y + area.height - (down.1 + down.3) <= 1
            }
        }),
{
    lemma_tiles_fill_area(area, inner);
}

/// The four quarters are the half-width columns crossed with the
/// half-height rows: each has a half's width and height, the right ones
/// start where the left halves' gap ends and the bottom ones where the top
/// halves' gap ends.
pub proof fn lemma_quarters_tile_area(area: UsableArea, inner: Gaps)
    requires
        dimensions_fit(area, inner),
    ensures
        ({
            let d = spec_dimensions(area, inner);
            let left = spec_placement(Command::Left, area, d);
            let right = spec_placement(Command::Right, area, d);
            let up = spec_placement(Command::Up, area, d);
            let down = spec_placement(Command::Down, area, d);
            let tl = spec_placement(Command::TopLeft, area, d);
            let tr = spec_placement(Command::TopRight, area, d);
            let bl = spec_placement(Command::BottomLeft, area, d);
            let br = spec_placement(Command::BottomRight, area, d);
            &&& tl == (left.0, up.1, left.2, up.3)
            &&& tr == (right.0, up.1, right.2, up.3)
            &&& bl == (left.0, down.1, left.2, down.3)
            &&& br == (right.0, down.1, right.2, down.3)
        }),
{
}

/// The three thirds sit side by side with the visible gap between
/// neighbours and span the area's height; the left two-thirds tile covers
/// the left and centre thirds and the gap between them, the right
/// two-thirds tile the centre and right thirds. When the area is wide
/// enough for three tiles (at least two gaps and three pixels), the right
/// third ends inside the area, at most two pixels short of its right edge.
pub proof fn lemma_thirds_side_by_side(area: UsableArea, inner: Gaps)
    requires
        dimensions_fit(area, inner),
    ensures
        ({
            let d = spec_dimensions(area, inner);
            let lt = spec_placement(Command::LeftThird, area, d);
            let ct = spec_placement(Command::CenterThird, area, d);
            let rt = spec_placement(Command::RightThird, area, d);
            let ltt = spec_placement(Command::LeftTwoThird, area, d);
            let rtt = spec_placement(Command::RightTwoThird, area, d);
            &&& lt.0 == area.x && lt.1 == area.y && lt.3 == area.height
            &&& ct.0 == lt.0 + lt.2 + d.gap_h && ct.2 == lt.2
            &&& rt.0 == ct.0 + ct.2 + d.gap_h && rt.2 == lt.2
            &&& ct.1 == lt.1 && rt.1 == lt.1 && ct.3 == lt.3 && rt.3 == lt.3
            &&& ltt.0 == lt.0 && ltt.0 + ltt.2 == ct.0 + ct.2
            &&& rtt.0 == ct.0 && rtt.0 + rtt.2 == rt.0 + rt.2
            &&& ltt.1 == lt.1 && ltt.3 == lt.3 && rtt.1 == lt.1 && rtt.3 == lt.3
            &&& area.width >= 2 * d.gap_h + 3 ==> {
                &&& rt.0 + rt.2 <= area.x + area.width
                &&& area.x + area.width - (rt.0 + rt.2) <= 2
            }
        }),
{
    lemma_tiles_fill_area(area, inner);
}

/// `Maximize` fills the usable area. `Center` places a box of 75% of the
/// area's width and height (rounded down) inside the area, with margins on
/// opposite sides that differ by at most one pixel.
pub proof fn lemma_maximize_and_center(area: UsableArea, inner: Gaps)
    requires
        dimensions_fit(area, inner),
        area.width >= 0,
        area.height >= 0,
    ensures
        ({
            let d = spec_dimensions(area, inner);
            let m = spec_placement(Command::Maximize, area, d);
            let c = spec_placement(Command::Center, area, d);
            let right_margin = (area.x + area.width) - (c.0 + c.2);
            let left_margin = c.0 - area.x;
            let bottom_margin = (area.y + area.height) - (c.1 + c.3);
            let top_margin = c.1 - area.y;
            &&& m == (area.x as int, area.y as int, area.width as int, area.height as int)
            &&& c.2 == area.width * 75 / 100 && c.3 == area.height * 75 / 100
            &&& 0 <= left_margin <= right_margin <= left_margin + 1
            &&& 0 <= top_margin <= bottom_margin <= top_margin + 1
        }),
{
}

} // verus!
