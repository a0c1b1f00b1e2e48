//! Geometry of a single pointer stroke on a screen of known size.
//!
//! Positions are pixel pairs `(x, y)`: `x` grows to the right and `y` grows
//! downwards, so the top edge of the screen is `y == 0` and the left edge is
//! `x == 0`.
use vstd::prelude::*;

verus! {

/// Greatest distance, in pixels, by which a stroke may leave its axis or a
/// screen edge and still count as lying on it.
pub const TOLERANCE: i32 = 50;

/// The axis along which a stroke runs.
#[derive(Clone, Copy, Debug, PartialEq, Eq, Structural)]
pub enum Axis {
    Horizontal,
    Vertical,
    Invalid,
}

/// A corner of the screen.
#[derive(Clone, Copy, Debug, PartialEq, Eq, Structural)]
pub enum Corner {
    TopLeft,
    TopRight,
    BottomLeft,
    BottomRight,
}

/// Distance between two coordinates.
pub open spec fn distance(a: int, b: int) -> int {
    if a >= b {
        a - b
    } else {
        b - a
    }
}

/// `a` lies within the tolerance of `b`.
pub open spec fn near(a: int, b: int) -> bool {
    b - TOLERANCE <= a <= b + TOLERANCE
}

/// The stretch from `a` to `b` covers more than nine tenths of `extent`.
pub open spec fn spans(a: int, b: int, extent: int) -> bool {
    10 * distance(a, b) > 9 * extent
}

/// The coordinate `c` lies within the tolerance of either end of `0..extent`.
pub open spec fn on_edge(c: int, extent: int) -> bool {
    c - TOLERANCE <= 0 || c + TOLERANCE >= extent
}

/// The stroke keeps its `x` within the tolerance.
pub open spec fn spec_is_vertical(start: (i32, i32), end: (i32, i32)) -> bool {
    near(start.0 as int, end.0 as int)
}

/// The stroke keeps its `y` within the tolerance.
pub open spec fn spec_is_horizontal(start: (i32, i32), end: (i32, i32)) -> bool {
    near(start.1 as int, end.1 as int)
}

/// A straight vertical stroke: `x` within the tolerance, `y` covering more
/// than nine tenths of the screen height.
pub open spec fn straight_vertical(start: (i32, i32), end: (i32, i32), height: u64) -> bool {
    spec_is_vertical(start, end) && spans(start.1 as int, end.1 as int, height as int)
}

/// A straight horizontal stroke: `y` within the tolerance, `x` covering more
/// than nine tenths of the screen width.
pub open spec fn straight_horizontal(start: (i32, i32), end: (i32, i32), width: u64) -> bool {
    spec_is_horizontal(start, end) && spans(start.0 as int, end.0 as int, width as int)
}

/// A straight vertical stroke that ends on the left or the right screen edge.
pub open spec fn spec_vertical_check(
    start: (i32, i32),
    end: (i32, i32),
    height: u64,
    width: u64,
) -> bool {
    straight_vertical(start, end, height) && on_edge(end.0 as int, width as int)
}

/// A straight horizontal stroke that ends on the top or the bottom screen edge.
pub open spec fn spec_horizontal_check(
    start: (i32, i32),
    end: (i32, i32),
    width: u64,
    height: u64,
) -> bool {
    straight_horizontal(start, end, width) && on_edge(end.1 as int, height as int)
}

/// The confirmation stroke: `y` within the tolerance, `x` covering at least
/// nine tenths of the screen width, and the end on the top or the bottom
/// screen edge.
pub open spec fn spec_horizontal_check2(
    start: (i32, i32),
    end: (i32, i32),
    width: u64,
    height: u64,
) -> bool {
    &&& spec_is_horizontal(start, end)
    &&& 10 * distance(start.0 as int, end.0 as int) >= 9 * width
    &&& on_edge(end.1 as int, height as int)
}

/// The axis of a stroke: horizontal if it is a straight horizontal stroke,
/// else vertical if it is a straight vertical one, else invalid.
pub open spec fn spec_classify(
    start: (i32, i32),
    end: (i32, i32),
    width: u64,
    height: u64,
) -> Axis {
    if straight_horizontal(start, end, width) {
        Axis::Horizontal
    } else if straight_vertical(start, end, height) {
        Axis::Vertical
    } else {
        Axis::Invalid
    }
}

/// The orientation that a first segment fixes. `length` is the extent of the
/// screen across the stroke: the width for a vertical stroke, the height for a
/// horizontal one.
///
/// Clockwise are: a vertical stroke drawn top-to-bottom on the left edge or
/// bottom-to-top on the right edge, and a horizontal stroke drawn
/// right-to-left on the top edge or left-to-right on the bottom edge.
/// Every other stroke is counter-clockwise.
pub open spec fn spec_is_clockwise(
    start: (i32, i32),
    end: (i32, i32),
    side: Axis,
    length: u64,
) -> bool {
    match side {
        Axis::Vertical => (start.1 < end.1 && end.0 <= TOLERANCE) || (start.1 > end.1 && end.0
            + TOLERANCE >= length),
        Axis::Horizontal => (start.0 > end.0 && end.1 <= TOLERANCE) || (start.0 < end.0 && end.1
            + TOLERANCE >= length),
        Axis::Invalid => false,
    }
}

/// The corner in whose quadrant a point lies: left up to the tolerance in
/// `x`, top below the tolerance in `y`.
pub open spec fn spec_corner_at(point: (i32, i32)) -> Corner {
    if point.1 >= TOLERANCE {
        if point.0 <= TOLERANCE {
            Corner::BottomLeft
        } else {
            Corner::BottomRight
        }
    } else {
        if point.0 <= TOLERANCE {
            Corner::TopLeft
        } else {
            Corner::TopRight
        }
    }
}

/// The corner that follows `corner` on the way round the screen.
pub open spec fn spec_next_corner(corner: Corner, clockwise: bool) -> Corner {
    match (corner, clockwise) {
        (Corner::BottomLeft, true) => Corner::BottomRight,
        (Corner::BottomRight, true) => Corner::TopRight,
        (Corner::TopRight, true) => Corner::TopLeft,
        (Corner::TopLeft, true) => Corner::BottomLeft,
        (Corner::BottomLeft, false) => Corner::TopLeft,
        (Corner::TopLeft, false) => Corner::TopRight,
        (Corner::TopRight, false) => Corner::BottomRight,
        (Corner::BottomRight, false) => Corner::BottomLeft,
    }
}

/// The corner near which the segment after one that ended at `end` must end.
pub open spec fn spec_next_side(end: (i32, i32), direction: bool) -> Corner {
    spec_next_corner(spec_corner_at(end), direction)
}

/// The corner towards which a stroke of the given axis runs, `None` for an
/// invalid axis. A vertical stroke is on the left up to the tolerance in `x`
/// and runs to the bottom when `y` grows; a horizontal stroke is at the top up
/// to the tolerance in `y` and runs to the right when `x` grows.
pub open spec fn spec_implied_corner(start: (i32, i32), end: (i32, i32), side: Axis) -> Option<
    Corner,
> {
    match side {
        Axis::Vertical => Some(
            if end.0 <= TOLERANCE {
                if start.1 < end.1 {
                    Corner::BottomLeft
                } else {
                    Corner::TopLeft
                }
            } else {
                if start.1 < end.1 {
                    Corner::BottomRight
                } else {
                    Corner::TopRight
                }
            },
        ),
        Axis::Horizontal => Some(
            if end.1 <= TOLERANCE {
                if start.0 < end.0 {
                    Corner::TopRight
                } else {
                    Corner::TopLeft
                }
            } else {
                if start.0 < end.0 {
                    Corner::BottomRight
                } else {
                    Corner::BottomLeft
                }
            },
        ),
        Axis::Invalid => None,
    }
}

/// The stroke runs towards the corner `next`.
pub open spec fn spec_is_correct(
    start: (i32, i32),
    end: (i32, i32),
    side: Axis,
    next: Corner,
) -> bool {
    spec_implied_corner(start, end, side) == Some(next)
}

/// A confirmation stroke lies along the top or the bottom screen edge: it
/// ends within the tolerance of the edge and begins within twice the tolerance
/// of it. Every horizontal segment of the rectangle is a confirmation stroke.
pub proof fn lemma_confirmation_lies_along_an_edge(
    start: (i32, i32),
    end: (i32, i32),
    width: u64,
    height: u64,
)
    ensures
        spec_horizontal_check2(start, end, width, height) ==> {
            ||| end.1 <= TOLERANCE && start.1 <= 2 * TOLERANCE
            ||| end.1 + TOLERANCE >= height && start.1 + 2 * TOLERANCE >= height
        },
        spec_horizontal_check(start, end, width, height) ==> spec_horizontal_check2(
            start,
            end,
            width,
            height,
        ),
{
}

/// Whether the stroke keeps its `x` within the tolerance.
pub fn is_vertical(start: (i32, i32), end: (i32, i32)) -> (aligned: bool)
    ensures
        aligned == spec_is_vertical(start, end),
{
    let a: i64 = start.0 as i64;
    let b: i64 = end.0 as i64;
    a >= b - TOLERANCE as i64 && a <= b + TOLERANCE as i64
}

/// Whether the stroke keeps its `y` within the tolerance.
pub fn is_horizontal(start: (i32, i32), end: (i32, i32)) -> (aligned: bool)
    ensures
        aligned == spec_is_horizontal(start, end),
{
    let a: i64 = start.1 as i64;
    let b: i64 = end.1 as i64;
    a >= b - TOLERANCE as i64 && a <= b + TOLERANCE as i64
}

/// Ten times the distance between two coordinates.
fn tenfold_distance(a: i32, b: i32) -> (tenfold: u128)
    ensures
        tenfold == 10 * distance(a as int, b as int),
{
    let d: i64 = if a >= b {
        a as i64 - b as i64
    } else {
        b as i64 - a as i64
    };
    10 * (d as u128)
}

/// Whether the coordinate lies within the tolerance of either end of
/// `0..extent`.
fn touches_edge(c: i32, extent: u64) -> (touches: bool)
    ensures
        touches == on_edge(c as int, extent as int),
{
    let c: i128 = c as i128;
    c - TOLERANCE as i128 <= 0 || c + TOLERANCE as i128 >= extent as i128
}

/// Whether the stroke is a straight vertical one that ends on the left or the
/// right edge of a screen of the given size.
pub fn vertical_check(start: (i32, i32), end: (i32, i32), height: u64, width: u64) -> (valid: bool)
    ensures
        valid == spec_vertical_check(start, end, height, width),
{
    is_vertical(start, end) && tenfold_distance(start.1, end.1) > 9 * (height as u128)
        && touches_edge(end.0, width)
}

/// Whether the stroke is a straight horizontal one that ends on the top or the
/// bottom edge of a screen of the given size.
pub fn horizontal_check(start: (i32, i32), end: (i32, i32), width: u64, height: u64) -> (valid:
    bool)
    ensures
        valid == spec_horizontal_check(start, end, width, height),
{
    is_horizontal(start, end) && tenfold_distance(start.0, end.0) > 9 * (width as u128)
        && touches_edge(end.1, height)
}

/// Whether the stroke is a confirmation stroke: horizontal within the
/// tolerance, covering at least nine tenths of the screen width, and ending
/// on the top or the bottom edge of a screen of the given size.
pub fn horizontal_check2(start: (i32, i32), end: (i32, i32), width: u64, height: u64) -> (valid:
    bool)
    ensures
        valid == spec_horizontal_check2(start, end, width, height),
{
    is_horizontal(start, end) && tenfold_distance(start.0, end.0) >= 9 * (width as u128)
        && touches_edge(end.1, height)
}

/// Classifies a stroke by its axis.
///
/// A stroke classified horizontal deviates by at most the tolerance in `y`
/// and covers more than nine tenths of the width; one classified vertical
/// deviates by at most the tolerance in `x` and covers more than nine tenths
/// of the height; a stroke is invalid exactly when it fails both tests.
pub fn classify(start: (i32, i32), end: (i32, i32), width: u64, height: u64) -> (axis: Axis)
    ensures
        axis == spec_classify(start, end, width, height),
        axis == Axis::Horizontal ==> distance(start.1 as int, end.1 as int) <= TOLERANCE && 10
            * distance(start.0 as int, end.0 as int) > 9 * width,
        axis == Axis::Vertical ==> distance(start.0 as int, end.0 as int) <= TOLERANCE && 10
            * distance(start.1 as int, end.1 as int) > 9 * height,
        axis == Axis::Invalid <==> !straight_horizontal(start, end, width) && !straight_vertical(
            start,
            end,
            height,
        ),
{
    if is_horizontal(start, end) && tenfold_distance(start.0, end.0) > 9 * (width as u128) {
        Axis::Horizontal
    } else if is_vertical(start, end) && tenfold_distance(start.1, end.1) > 9 * (height as u128) {
        Axis::Vertical
    } else {
        Axis::Invalid
    }
}

/// The orientation that a first segment of the given axis fixes; `length` is
/// the screen's extent across the stroke.
pub fn is_clockwise(start: (i32, i32), end: (i32, i32), side: Axis, length: u64) -> (clockwise:
    bool)
    ensures
        clockwise == spec_is_clockwise(start, end, side, length),
{
    match side {
        Axis::Vertical => {
            let low: bool = end.0 <= TOLERANCE;
            let high: bool = end.0 as i128 + TOLERANCE as i128 >= length as i128;
            (start.1 < end.1 && low) || (start.1 > end.1 && high)
        },
        Axis::Horizontal => {
            let low: bool = end.1 <= TOLERANCE;
            let high: bool = end.1 as i128 + TOLERANCE as i128 >= length as i128;
            (start.0 > end.0 && low) || (start.0 < end.0 && high)
        },
        Axis::Invalid => false,
    }
}

/// The corner in whose quadrant a point lies.
pub fn corner_at(point: (i32, i32)) -> (corner: Corner)
    ensures
        corner == spec_corner_at(point),
{
    if point.1 >= TOLERANCE {
        if point.0 <= TOLERANCE {
            Corner::BottomLeft
        } else {
            Corner::BottomRight
        }
    } else {
        if point.0 <= TOLERANCE {
            Corner::TopLeft
        } else {
            Corner::TopRight
        }
    }
}

/// The corner that follows `corner` in the given orientation.
pub fn next_corner(corner: Corner, clockwise: bool) -> (next: Corner)
    ensures
        next == spec_next_corner(corner, clockwise),
{
    match (corner, clockwise) {
        (Corner::BottomLeft, true) => Corner::BottomRight,
        (Corner::BottomRight, true) => Corner::TopRight,
        (Corner::TopRight, true) => Corner::TopLeft,
        (Corner::TopLeft, true) => Corner::BottomLeft,
        (Corner::BottomLeft, false) => Corner::TopLeft,
        (Corner::TopLeft, false) => Corner::TopRight,
        (Corner::TopRight, false) => Corner::BottomRight,
        (Corner::BottomRight, false) => Corner::BottomLeft,
    }
}

/// The corner near which the next segment must end, given where the last one
/// ended and the orientation of the attempt.
pub fn next_side(end: (i32, i32), direction: bool) -> (next: Corner)
    ensures
        next == spec_next_side(end, direction),
{
    next_corner(corner_at(end), direction)
}

/// Whether a stroke of the given axis runs towards the corner `next`.
pub fn is_correct(start: (i32, i32), end: (i32, i32), side: Axis, next: Corner) -> (correct: bool)
    ensures
        correct == spec_is_correct(start, end, side, next),
{
    match side {
        Axis::Vertical => {
            let left: bool = end.0 <= TOLERANCE;
            let down: bool = start.1 < end.1;
            match next {
                Corner::BottomLeft => left && down,
                Corner::TopLeft => left && !down,
                Corner::BottomRight => !left && down,
                Corner::TopRight => !left && !down,
            }
        },
        Axis::Horizontal => {
            let top: bool = end.1 <= TOLERANCE;
            let rightwards: bool = start.0 < end.0;
            match next {
                Corner::TopRight => top && rightwards,
                Corner::TopLeft => top && !rightwards,
                Corner::BottomRight => !top && rightwards,
                Corner::BottomLeft => !top && !rightwards,
            }
        },
        Axis::Invalid => false,
    }
}

} // verus!
