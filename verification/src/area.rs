//! Usable area of a monitor: which layer surfaces (bars, docks) reserve an
//! edge, and what is left once those reservations and the outer gaps are
//! taken off.
use vstd::prelude::*;

use crate::gaps::Gaps;

verus! {

/// Tolerance (in pixels) for classifying a layer surface as edge-hugging.
/// Covers the case where panels are positioned a few pixels off the edge
/// or span almost (but not quite) the full monitor dimension.
pub const EDGE_TOLERANCE_PX: i32 = 100;

/// Usable area on a monitor after reserving layer surfaces and outer gaps.
#[derive(Debug, Clone, Copy, PartialEq, Eq, Structural)]
pub struct UsableArea {
    pub x: i32,
    pub y: i32,
    pub width: i32,
    pub height: i32,
}

/// Rectangle in screen coordinates.
#[derive(Debug, Clone, Copy, PartialEq, Eq, Structural)]
pub struct Rect {
    pub x: i32,
    pub y: i32,
    pub w: i32,
    pub h: i32,
}

/// Which edge a panel hugs. `Fullscreen` means the layer covers the whole
/// monitor (likely a background, e.g. hyprpaper) and must be ignored;
/// `NoEdge` means the layer hugs no edge (a floating widget).
#[derive(Debug, Clone, Copy, PartialEq, Eq, Structural)]
pub enum EdgeReservation {
    Top(i32),
    Bottom(i32),
    Left(i32),
    Right(i32),
    Fullscreen,
    NoEdge,
}

/// `v`, or 0 when `v` is negative.
pub open spec fn clamp_nonneg(v: int) -> int {
    if v < 0 {
        0
    } else {
        v
    }
}

/// Distance from the monitor's top edge down to the layer (0 if above).
pub open spec fn top_gap(mon: Rect, layer: Rect) -> int {
    clamp_nonneg(layer.y - mon.y)
}

/// Distance from the layer's bottom edge down to the monitor's bottom edge.
pub open spec fn bottom_gap(mon: Rect, layer: Rect) -> int {
    clamp_nonneg((mon.y + mon.h) - (layer.y + layer.h))
}

/// Distance from the monitor's left edge to the layer.
pub open spec fn left_gap(mon: Rect, layer: Rect) -> int {
    clamp_nonneg(layer.x - mon.x)
}

/// Distance from the layer's right edge to the monitor's right edge.
pub open spec fn right_gap(mon: Rect, layer: Rect) -> int {
    clamp_nonneg((mon.x + mon.w) - (layer.x + layer.w))
}

/// The layer is at least as large as the monitor, give or take a pixel.
pub open spec fn covers_monitor(mon: Rect, layer: Rect) -> bool {
    layer.w >= mon.w - 1 && layer.h >= mon.h - 1
}

/// The layer spans the monitor's width, up to the tolerance.
pub open spec fn spans_width(mon: Rect, layer: Rect) -> bool {
    layer.w >= mon.w - EDGE_TOLERANCE_PX
}

/// The layer spans the monitor's height, up to the tolerance.
pub open spec fn spans_height(mon: Rect, layer: Rect) -> bool {
    layer.h >= mon.h - EDGE_TOLERANCE_PX
}

/// The number of pixels the layer reserves on the edge it hugs (0 when it
/// hugs none): its distance from that edge plus its thickness.
pub open spec fn reserved_amount(mon: Rect, layer: Rect) -> int {
    if covers_monitor(mon, layer) {
        0
    } else if spans_width(mon, layer) {
        if top_gap(mon, layer) <= EDGE_TOLERANCE_PX {
            top_gap(mon, layer) + layer.h
        } else if bottom_gap(mon, layer) <= EDGE_TOLERANCE_PX {
            bottom_gap(mon, layer) + layer.h
        } else {
            0
        }
    } else if spans_height(mon, layer) {
        if left_gap(mon, layer) <= EDGE_TOLERANCE_PX {
            left_gap(mon, layer) + layer.w
        } else if right_gap(mon, layer) <= EDGE_TOLERANCE_PX {
            right_gap(mon, layer) + layer.w
        } else {
            0
        }
    } else {
        0
    }
}

/// The reservation fits in an `i32`.
pub open spec fn classify_fits(mon: Rect, layer: Rect) -> bool {
    reserved_amount(mon, layer) <= i32::MAX
}

/// How a layer surface is classified against its monitor.
///
/// A layer that covers the monitor is a background. Otherwise a layer as
/// wide as the monitor (within the tolerance) hugs the top edge if it lies
/// within the tolerance of it, else the bottom edge if it lies within the
/// tolerance of that; a layer as tall as the monitor likewise hugs the
/// left, then the right edge. Anything else reserves nothing.
pub open spec fn spec_classify_layer(mon: Rect, layer: Rect) -> EdgeReservation {
    let amount = reserved_amount(mon, layer) as i32;
    if covers_monitor(mon, layer) {
        EdgeReservation::Fullscreen
    } else if spans_width(mon, layer) {
        if top_gap(mon, layer) <= EDGE_TOLERANCE_PX {
            EdgeReservation::Top(amount)
        } else if bottom_gap(mon, layer) <= EDGE_TOLERANCE_PX {
            EdgeReservation::Bottom(amount)
        } else {
            EdgeReservation::NoEdge
        }
    } else if spans_height(mon, layer) {
        if left_gap(mon, layer) <= EDGE_TOLERANCE_PX {
            EdgeReservation::Left(amount)
        } else if right_gap(mon, layer) <= EDGE_TOLERANCE_PX {
            EdgeReservation::Right(amount)
        } else {
            EdgeReservation::NoEdge
        }
    } else {
        EdgeReservation::NoEdge
    }
}

/// `v` is representable as an `i32`.
pub open spec fn in_i32(v: int) -> bool {
    i32::MIN <= v <= i32::MAX
}

fn nonneg(v: i64) -> (r: i64)
    ensures
        r == clamp_nonneg(v as int),
{
    if v < 0 {
        0
    } else {
        v
    }
}

/// Classify a layer surface against its monitor's rectangle.
pub fn classify_layer(mon: Rect, layer: Rect) -> (r: EdgeReservation)
    requires
        classify_fits(mon, layer),
    ensures
        r == spec_classify_layer(mon, layer),
{
    let mx = mon.x as i64;
    let my = mon.y as i64;
    let mw = mon.w as i64;
    let mh = mon.h as i64;
    let lx = layer.x as i64;
    let ly = layer.y as i64;
    let lw = layer.w as i64;
    let lh = layer.h as i64;
    let tolerance = EDGE_TOLERANCE_PX as i64;

    if lw >= mw - 1 && lh >= mh - 1 {
        return EdgeReservation::Fullscreen;
    }
    if lw >= mw - tolerance {
        let top_dist = nonneg(ly - my);
        let bottom_dist = nonneg((my + mh) - (ly + lh));
        if top_dist <= tolerance {
            return EdgeReservation::Top((top_dist + lh) as i32);
        }
        if bottom_dist <= tolerance {
            return EdgeReservation::Bottom((bottom_dist + lh) as i32);
        }
        return EdgeReservation::NoEdge;
    }
    if lh >= mh - tolerance {
        let left_dist = nonneg(lx - mx);
        let right_dist = nonneg((mx + mw) - (lx + lw));
        if left_dist <= tolerance {
            return EdgeReservation::Left((left_dist + lw) as i32);
        }
        if right_dist <= tolerance {
            return EdgeReservation::Right((right_dist + lw) as i32);
        }
    }
    EdgeReservation::NoEdge
}

/// The reservation amount, computed without overflow.
fn reserved_amount_wide(mon: Rect, layer: Rect) -> (a: i64)
    ensures
        a == reserved_amount(mon, layer),
{
    let mx = mon.x as i64;
    let my = mon.y as i64;
    let mw = mon.w as i64;
    let mh = mon.h as i64;
    let lx = layer.x as i64;
    let ly = layer.y as i64;
    let lw = layer.w as i64;
    let lh = layer.h as i64;
    let tolerance = EDGE_TOLERANCE_PX as i64;

    if lw >= mw - 1 && lh >= mh - 1 {
        0
    } else if lw >= mw - tolerance {
        let top_dist = nonneg(ly - my);
        let bottom_dist = nonneg((my + mh) - (ly + lh));
        if top_dist <= tolerance {
            top_dist + lh
        } else if bottom_dist <= tolerance {
            bottom_dist + lh
        } else {
            0
        }
    } else if lh >= mh - tolerance {
        let left_dist = nonneg(lx - mx);
        let right_dist = nonneg((mx + mw) - (lx + lw));
        if left_dist <= tolerance {
            left_dist + lw
        } else if right_dist <= tolerance {
            right_dist + lw
        } else {
            0
        }
    } else {
        0
    }
}

/// Space reserved on each edge of a monitor by layer surfaces.
#[derive(Debug, Clone, Copy, PartialEq, Eq, Structural)]
pub struct Reservations {
    pub top: i32,
    pub bottom: i32,
    pub left: i32,
    pub right: i32,
}

/// Nothing reserved.
pub open spec fn no_reservations() -> Reservations {
    Reservations { top: 0, bottom: 0, left: 0, right: 0 }
}

/// The larger of two `i32` values.
pub open spec fn max_i32(a: i32, b: i32) -> i32 {
    if a >= b {
        a
    } else {
        b
    }
}

/// Account for one classified layer: the edge it hugs keeps the larger of
/// its previous reservation and this layer's; backgrounds and floating
/// layers change nothing.
pub open spec fn add_reservation(acc: Reservations, r: EdgeReservation) -> Reservations {
    match r {
        EdgeReservation::Top(o) => Reservations { top: max_i32(acc.top, o), ..acc },
        EdgeReservation::Bottom(o) => Reservations { bottom: max_i32(acc.bottom, o), ..acc },
        EdgeReservation::Left(o) => Reservations { left: max_i32(acc.left, o), ..acc },
        EdgeReservation::Right(o) => Reservations { right: max_i32(acc.right, o), ..acc },
        EdgeReservation::Fullscreen | EdgeReservation::NoEdge => acc,
    }
}

/// The reservations of all `layers` on `mon`, starting from nothing.
pub open spec fn reservations_of(mon: Rect, layers: Seq<Rect>) -> Reservations
    decreases layers.len(),
{
    if layers.len() == 0 {
        no_reservations()
    } else {
        add_reservation(
            reservations_of(mon, layers.drop_last()),
            spec_classify_layer(mon, layers.last()),
        )
    }
}

/// Every layer's reservation fits in an `i32`.
pub open spec fn all_classify_fit(mon: Rect, layers: Seq<Rect>) -> bool {
    forall|i: int| 0 <= i < layers.len() ==> classify_fits(mon, #[trigger] layers[i])
}

/// Sum up the edges reserved by `layers` on `mon`.
pub fn reserve_edges(mon: Rect, layers: &Vec<Rect>) -> (r: Reservations)
    requires
        all_classify_fit(mon, layers@),
    ensures
        r == reservations_of(mon, layers@),
{
    let mut acc = Reservations { top: 0, bottom: 0, left: 0, right: 0 };
    let mut i: usize = 0;
    while i < layers.len()
        invariant
            i <= layers.len(),
            all_classify_fit(mon, layers@),
            acc == reservations_of(mon, layers@.take(i as int)),
        decreases layers.len() - i,
    {
        let layer = layers[i];
        match classify_layer(mon, layer) {
            EdgeReservation::Top(o) => {
                if o > acc.top {
                    acc.top = o;
                }
            },
            EdgeReservation::Bottom(o) => {
                if o > acc.bottom {
                    acc.bottom = o;
                }
            },
            EdgeReservation::Left(o) => {
                if o > acc.left {
                    acc.left = o;
                }
            },
            EdgeReservation::Right(o) => {
                if o > acc.right {
                    acc.right = o;
                }
            },
            EdgeReservation::Fullscreen | EdgeReservation::NoEdge => {},
        }
        assert(layers@.take(i + 1).drop_last() =~= layers@.take(i as int));
        i += 1;
    }
    assert(layers@.take(layers.len() as int) =~= layers@);
    acc
}

/// `v`, or 1 when `v` is smaller.
pub open spec fn at_least_one(v: int) -> int {
    if v < 1 {
        1
    } else {
        v
    }
}

/// Monitor width left between the left and right reservations.
pub open spec fn inner_width(mon: Rect, res: Reservations) -> int {
    mon.w - res.left - res.right
}

/// Monitor height left between the top and bottom reservations.
pub open spec fn inner_height(mon: Rect, res: Reservations) -> int {
    mon.h - res.top - res.bottom
}

/// The outer gaps are applied horizontally only when they leave room.
pub open spec fn horizontal_gaps_apply(mon: Rect, res: Reservations, g: Gaps) -> bool {
    inner_width(mon, res) > g.left + g.right
}

/// The outer gaps are applied vertically only when they leave room.
pub open spec fn vertical_gaps_apply(mon: Rect, res: Reservations, g: Gaps) -> bool {
    inner_height(mon, res) > g.top + g.bottom
}

/// Left edge of the usable area.
pub open spec fn usable_x(mon: Rect, res: Reservations, g: Gaps) -> int {
    mon.x + res.left + if horizontal_gaps_apply(mon, res, g) {
        g.left as int
    } else {
        0
    }
}

/// Top edge of the usable area.
pub open spec fn usable_y(mon: Rect, res: Reservations, g: Gaps) -> int {
    mon.y + res.top + if vertical_gaps_apply(mon, res, g) {
        g.top as int
    } else {
        0
    }
}

/// Width of the usable area, never below one pixel.
pub open spec fn usable_width(mon: Rect, res: Reservations, g: Gaps) -> int {
    at_least_one(
        if horizontal_gaps_apply(mon, res, g) {
            inner_width(mon, res) - g.left - g.right
        } else {
            inner_width(mon, res)
        },
    )
}

/// Height of the usable area, never below one pixel.
pub open spec fn usable_height(mon: Rect, res: Reservations, g: Gaps) -> int {
    at_least_one(
        if vertical_gaps_apply(mon, res, g) {
            inner_height(mon, res) - g.top - g.bottom
        } else {
            inner_height(mon, res)
        },
    )
}

/// The usable area's coordinates fit in `i32`.
pub open spec fn usable_area_fits(mon: Rect, res: Reservations, g: Gaps) -> bool {
    &&& in_i32(usable_x(mon, res, g))
    &&& in_i32(usable_y(mon, res, g))
    &&& in_i32(usable_width(mon, res, g))
    &&& in_i32(usable_height(mon, res, g))
}

/// The usable area of `mon` given its edge reservations and outer gaps.
pub open spec fn spec_usable_area(mon: Rect, res: Reservations, g: Gaps) -> UsableArea {
    UsableArea {
        x: usable_x(mon, res, g) as i32,
        y: usable_y(mon, res, g) as i32,
        width: usable_width(mon, res, g) as i32,
        height: usable_height(mon, res, g) as i32,
    }
}

fn at_least_one_wide(v: i64) -> (r: i64)
    ensures
        r == at_least_one(v as int),
{
    if v < 1 {
        1
    } else {
        v
    }
}

/// The usable area, computed without overflow.
fn usable_area_wide(mon: Rect, res: Reservations, g: &Gaps) -> (r: (i64, i64, i64, i64))
    ensures
        r.0 == usable_x(mon, res, *g),
        r.1 == usable_y(mon, res, *g),
        r.2 == usable_width(mon, res, *g),
        r.3 == usable_height(mon, res, *g),
{
    let mut width = mon.w as i64 - res.left as i64 - res.right as i64;
    let mut height = mon.h as i64 - res.top as i64 - res.bottom as i64;
    let mut x = mon.x as i64 + res.left as i64;
    let mut y = mon.y as i64 + res.top as i64;
    let gaps_h = g.left as i64 + g.right as i64;
    let gaps_v = g.top as i64 + g.bottom as i64;
    if width > gaps_h {
        x = x + g.left as i64;
        width = width - gaps_h;
    }
    if height > gaps_v {
        y = y + g.top as i64;
        height = height - gaps_v;
    }
    (x, y, at_least_one_wide(width), at_least_one_wide(height))
}

/// The monitor and its layers give a usable area whose numbers all fit in
/// `i32`; `calculate_usable_area` asks for no more.
pub fn usable_area_in_range(mon: Rect, layers: &Vec<Rect>, outer_gaps: &Gaps) -> (ok: bool)
    ensures
        ok == (all_classify_fit(mon, layers@) && usable_area_fits(
            mon,
            reservations_of(mon, layers@),
            *outer_gaps,
        )),
{
    let mut i: usize = 0;
    while i < layers.len()
        invariant
            i <= layers.len(),
            forall|j: int| 0 <= j < i ==> classify_fits(mon, #[trigger] layers@[j]),
        decreases layers.len() - i,
    {
        if reserved_amount_wide(mon, layers[i]) > i32::MAX as i64 {
            return false;
        }
        i += 1;
    }
    let res = reserve_edges(mon, layers);
    let (x, y, w, h) = usable_area_wide(mon, res, outer_gaps);
    let lo = i32::MIN as i64;
    let hi = i32::MAX as i64;
    lo <= x && x <= hi && lo <= y && y <= hi && lo <= w && w <= hi && lo <= h && h <= hi
}

/// Compute the usable area on the monitor `mon`, subtracting the edges
/// hugged by its layer surfaces `layers` and the outer gaps.
///
/// On each edge the largest reservation wins. The outer gaps on an axis are
/// applied only when the space left on it is larger than the two gaps
/// together; the width and height are never below one pixel.
pub fn calculate_usable_area(mon: Rect, layers: &Vec<Rect>, outer_gaps: &Gaps) -> (a: UsableArea)
    requires
        all_classify_fit(mon, layers@),
        usable_area_fits(mon, reservations_of(mon, layers@), *outer_gaps),
    ensures
        a == spec_usable_area(mon, reservations_of(mon, layers@), *outer_gaps),
        a.width >= 1,
        a.height >= 1,
{
    let res = reserve_edges(mon, layers);
    let (x, y, w, h) = usable_area_wide(mon, res, outer_gaps);
    UsableArea { x: x as i32, y: y as i32, width: w as i32, height: h as i32 }
}

/// The index of the first of `names` equal to `name`, if any: how a
/// monitor is picked by name, and the layer surfaces of a monitor found.
pub fn position_of_name(names: &Vec<String>, name: &str) -> (r: Option<usize>)
    ensures
        r matches Some(i) ==> i < names@.len() && names@[i as int]@ == name@ && forall|j: int|
            0 <= j < i ==> #[trigger] names@[j]@ != name@,
        r is None ==> forall|j: int| 0 <= j < names@.len() ==> #[trigger] names@[j]@ != name@,
{
    let key = name.to_owned();
    let mut i: usize = 0;
    while i < names.len()
        invariant
            i <= names@.len(),
            key@ == name@,
            forall|j: int| 0 <= j < i ==> #[trigger] names@[j]@ != name@,
        decreases names@.len() - i,
    {
        if names[i] == key {
            return Some(i);
        }
        i += 1;
    }
    None
}

/// No edge is reserved by a negative amount: reservations start at zero
/// and only grow.
pub proof fn lemma_reservations_nonneg(mon: Rect, layers: Seq<Rect>)
    ensures
        ({
            let r = reservations_of(mon, layers);
            r.top >= 0 && r.bottom >= 0 && r.left >= 0 && r.right >= 0
        }),
    decreases layers.len(),
{
    if layers.len() > 0 {
        lemma_reservations_nonneg(mon, layers.drop_last());
    }
}

/// The usable area is what lies between the reserved edges, less the
/// outer gaps where they fit: horizontally it starts after the left
/// reservation and the left gap and ends before the right gap and the
/// right reservation; where the gaps do not fit, it spans all that the
/// reservations leave (at least one pixel). Vertically alike.
pub proof fn lemma_usable_area_between_reservations(mon: Rect, res: Reservations, g: Gaps)
    ensures
        horizontal_gaps_apply(mon, res, g) ==> {
            &&& usable_x(mon, res, g) == mon.x + res.left + g.left
            &&& usable_x(mon, res, g) + usable_width(mon, res, g) == mon.x + mon.w - res.right
                - g.right
        },
        !horizontal_gaps_apply(mon, res, g) && inner_width(mon, res) >= 1 ==> {
            &&& usable_x(mon, res, g) == mon.x + res.left
            &&& usable_x(mon, res, g) + usable_width(mon, res, g) == mon.x + mon.w - res.right
        },
        vertical_gaps_apply(mon, res, g) ==> {
            &&& usable_y(mon, res, g) == mon.y + res.top + g.top
            &&& usable_y(mon, res, g) + usable_height(mon, res, g) == mon.y + mon.h - res.bottom
                - g.bottom
        },
        !vertical_gaps_apply(mon, res, g) && inner_height(mon, res) >= 1 ==> {
            &&& usable_y(mon, res, g) == mon.y + res.top
            &&& usable_y(mon, res, g) + usable_height(mon, res, g) == mon.y + mon.h - res.bottom
        },
{
}

/// How a layer is classified, in plain arithmetic on its rectangle and
/// its monitor's (with `T` the edge tolerance of 100 pixels and each
/// distance to an edge counted as 0 when the layer sticks out past it):
/// - at least as large as the monitor, give or take a pixel: a background;
/// - otherwise, at least the monitor's width less `T`: the top edge when
///   it lies within `T` of it, with its distance plus its height; else the
///   bottom edge when it lies within `T` of that; else no edge;
/// - otherwise, at least the monitor's height less `T`: the left edge when
///   it lies within `T` of it, with its distance plus its width; else the
///   right edge when it lies within `T` of that; else no edge;
/// - otherwise no edge.
pub proof fn lemma_classify_by_edges(mon: Rect, layer: Rect)
    ensures
        ({
            let t = 100int;
            let top = if layer.y - mon.y < 0 { 0 } else { layer.y - mon.y };
            let bottom = if (mon.y + mon.h) - (layer.y + layer.h) < 0 {
                0
            } else {
                (mon.y + mon.h) - (layer.y + layer.h)
            };
            let left = if layer.x - mon.x < 0 { 0 } else { layer.x - mon.x };
            let right = if (mon.x + mon.w) - (layer.x + layer.w) < 0 {
                0
            } else {
                (mon.x + mon.w) - (layer.x + layer.w)
            };
            let r = spec_classify_layer(mon, layer);
            let background = layer.w >= mon.w - 1 && layer.h >= mon.h - 1;
            let wide = layer.w >= mon.w - t;
            let tall = layer.h >= mon.h - t;
            &&& background ==> r == EdgeReservation::Fullscreen
            &&& !background && wide && top <= t ==> r == EdgeReservation::Top((top + layer.h) as i32)
            &&& !background && wide && top > t && bottom <= t ==> r == EdgeReservation::Bottom(
                (bottom + layer.h) as i32,
            )
            &&& !background && wide && top > t && bottom > t ==> r == EdgeReservation::NoEdge
            &&& !background && !wide && tall && left <= t ==> r == EdgeReservation::Left(
                (left + layer.w) as i32,
            )
            &&& !background && !wide && tall && left > t && right <= t ==> r
                == EdgeReservation::Right((right + layer.w) as i32)
            &&& !background && !wide && tall && left > t && right > t ==> r
                == EdgeReservation::NoEdge
            &&& !background && !wide && !tall ==> r == EdgeReservation::NoEdge
        }),
{
}

/// On each edge, the reservation of a list of layers is the largest
/// amount among the layers classified to that same edge (`Top` amounts on
/// the top edge, `Bottom` on the bottom, `Left` on the left, `Right` on the
/// right), or 0 when none is: it is not negative, no layer classified to
/// the edge reserves more, and unless it is 0 some layer classified to the
/// edge reserves exactly that much.
pub proof fn lemma_reservations_are_edge_maxima(mon: Rect, layers: Seq<Rect>)
    ensures
        ({
            let r = reservations_of(mon, layers);
            &&& r.top >= 0 && r.bottom >= 0 && r.left >= 0 && r.right >= 0
            &&& forall|i: int, o: i32|
                0 <= i < layers.len() ==> {
                    &&& spec_classify_layer(mon, layers[i]) == EdgeReservation::Top(o) ==> r.top >= o
                    &&& spec_classify_layer(mon, layers[i]) == EdgeReservation::Bottom(o) ==> r.bottom
                        >= o
                    &&& spec_classify_layer(mon, layers[i]) == EdgeReservation::Left(o) ==> r.left
                        >= o
                    &&& spec_classify_layer(mon, layers[i]) == EdgeReservation::Right(o) ==> r.right
                        >= o
                }
            &&& r.top == 0 || exists|i: int|
                0 <= i < layers.len() && spec_classify_layer(mon, layers[i])
                    == EdgeReservation::Top(r.top)
            &&& r.bottom == 0 || exists|i: int|
                0 <= i < layers.len() && spec_classify_layer(mon, layers[i])
                    == EdgeReservation::Bottom(r.bottom)
            &&& r.left == 0 || exists|i: int|
                0 <= i < layers.len() && spec_classify_layer(mon, layers[i])
                    == EdgeReservation::Left(r.left)
            &&& r.right == 0 || exists|i: int|
                0 <= i < layers.len() && spec_classify_layer(mon, layers[i])
                    == EdgeReservation::Right(r.right)
        }),
    decreases layers.len(),
{
    if layers.len() > 0 {
        let rest = layers.drop_last();
        lemma_reservations_are_edge_maxima(mon, rest);
        let r0 = reservations_of(mon, rest);
        let r = reservations_of(mon, layers);
        let last = layers.len() - 1;
        let c = spec_classify_layer(mon, layers[last]);
        assert(layers.last() == layers[last]);
        assert forall|i: int, o: i32| 0 <= i < layers.len() implies {
            &&& spec_classify_layer(mon, layers[i]) == EdgeReservation::Top(o) ==> r.top >= o
            &&& spec_classify_layer(mon, layers[i]) == EdgeReservation::Bottom(o) ==> r.bottom >= o
            &&& spec_classify_layer(mon, layers[i]) == EdgeReservation::Left(o) ==> r.left >= o
            &&& spec_classify_layer(mon, layers[i]) == EdgeReservation::Right(o) ==> r.right >= o
        } by {
            if i < last {
                assert(layers[i] == rest[i]);
            }
        }
        if r.top != 0 && r.top != r0.top {
            assert(c == EdgeReservation::Top(r.top));
        } else if r.top != 0 {
            let i = choose|i: int|
                0 <= i < rest.len() && spec_classify_layer(mon, rest[i]) == EdgeReservation::Top(
                    r0.top,
                );
            assert(layers[i] == rest[i]);
        }
        if r.bottom != 0 && r.bottom != r0.bottom {
            assert(c == EdgeReservation::Bottom(r.bottom));
        } else if r.bottom != 0 {
            let i = choose|i: int|
                0 <= i < rest.len() && spec_classify_layer(mon, rest[i])
                    == EdgeReservation::Bottom(r0.bottom);
            assert(layers[i] == rest[i]);
        }
        if r.left != 0 && r.left != r0.left {
            assert(c == EdgeReservation::Left(r.left));
        } else if r.left != 0 {
            let i = choose|i: int|
                0 <= i < rest.len() && spec_classify_layer(mon, rest[i]) == EdgeReservation::Left(
                    r0.left,
                );
            assert(layers[i] == rest[i]);
        }
        if r.right != 0 && r.right != r0.right {
            assert(c == EdgeReservation::Right(r.right));
        } else if r.right != 0 {
            let i = choose|i: int|
                0 <= i < rest.len() && spec_classify_layer(mon, rest[i])
                    == EdgeReservation::Right(r0.right);
            assert(layers[i] == rest[i]);
        }
    }
}

} // verus!
