//! Placing the nodes of a graph evenly on a circle inside the viewport.
//!
//! The circle's centre is the middle of the viewport and its radius leaves
//! a margin to the nearer edge. Where each node sits on the circle is
//! given by a direction: the cosine and sine of its angle as fixed-point
//! numbers.

use vstd::prelude::*;
use crate::tui::line::NodePosition;

verus! {

/// The fixed-point value that stands for 1 in a `Direction`.
pub const UNIT: i32 = 65536;

/// The cells kept free between the circle and the nearer edge of the
/// viewport.
pub const MARGIN: u16 = 2;

/// The cosine and sine of an angle, each in parts of `UNIT`.
#[derive(Clone, Copy, Debug, PartialEq, Eq, Structural)]
pub struct Direction {
    pub cos: i32,
    pub sin: i32,
}

/// Why a graph could not be drawn.
#[derive(Clone, Copy, Debug, PartialEq, Eq, Structural)]
pub enum GraphError {
    /// The viewport is too small for a circle with its margin.
    ViewportTooSmall,
    /// There is not exactly one direction for each node.
    DirectionCount,
}

/// The radius of the circle in a viewport of `width` by `height` cells:
/// half the shorter side less the margin. It is negative where the
/// viewport is too small.
pub open spec fn radius(width: int, height: int) -> int {
    (if width <= height {
        width
    } else {
        height
    }) / 2 - MARGIN as int
}

/// `num / den` rounded to the nearest whole number, a half away from zero.
pub open spec fn rounded(num: int, den: int) -> int {
    if num >= 0 {
        (2 * num + den) / (2 * den)
    } else {
        -((den - 2 * num) / (2 * den))
    }
}

/// The coordinate `middle + radius * part / UNIT`, rounded, where `middle`
/// is half of `side`.
pub open spec fn on_circle(side: int, radius: int, part: int) -> int {
    rounded(side * UNIT as int + 2 * radius * part, 2 * UNIT as int)
}

/// The column of a node in direction `dir`.
pub open spec fn placed_x(dir: Direction, width: int, height: int) -> int {
    on_circle(width, radius(width, height), dir.cos as int)
}

/// The row of a node in direction `dir`.
pub open spec fn placed_y(dir: Direction, width: int, height: int) -> int {
    on_circle(height, radius(width, height), dir.sin as int)
}

/// The position of a node in direction `dir`.
pub open spec fn placed(dir: Direction, width: int, height: int) -> NodePosition {
    NodePosition {
        x: placed_x(dir, width, height) as i64,
        y: placed_y(dir, width, height) as i64,
    }
}

/// The positions of nodes in the directions `dirs`, in their order.
pub open spec fn placed_all(dirs: Seq<Direction>, width: int, height: int) -> Seq<NodePosition> {
    Seq::new(dirs.len(), |i: int| placed(dirs[i], width, height))
}

/// The radius of the circle for a viewport, or `ViewportTooSmall` where
/// the margin does not fit.
pub fn layout_radius(width: u16, height: u16) -> (r: Result<u16, GraphError>)
    ensures
        radius(width as int, height as int) >= 0 ==> r == Ok::<u16, GraphError>(
            radius(width as int, height as int) as u16,
        ),
        radius(width as int, height as int) < 0 ==> r == Err::<u16, GraphError>(
            GraphError::ViewportTooSmall,
        ),
{
    let shorter: u16 = if width <= height {
        width
    } else {
        height
    };
    let half: u16 = shorter / 2;
    if half < MARGIN {
        Err(GraphError::ViewportTooSmall)
    } else {
        Ok(half - MARGIN)
    }
}

/// `num / den` rounded to the nearest whole number, a half away from zero.
fn round_div(num: i64, den: i64) -> (q: i64)
    requires
        0 < den <= 0x1000_0000_0000,
        -0x2_0000_0000_0000 <= num <= 0x2_0000_0000_0000,
    ensures
        q == rounded(num as int, den as int),
        -0x2_0000_0000_0000 <= q <= 0x2_0000_0000_0000,
{
    if num >= 0 {
        let q: i64 = (2 * num + den) / (2 * den);
        assert(0 <= q <= 0x2_0000_0000_0000) by (nonlinear_arith)
            requires
                q == (2 * num + den) / (2 * den),
                0 <= num <= 0x2_0000_0000_0000,
                0 < den,
        ;
        q
    } else {
        let q: i64 = (den - 2 * num) / (2 * den);
        assert(0 <= q <= 0x2_0000_0000_0000) by (nonlinear_arith)
            requires
                q == (den - 2 * num) / (2 * den),
                -0x2_0000_0000_0000 <= num < 0,
                0 < den,
        ;
        -q
    }
}

/// The coordinate on the circle along a side of the viewport.
fn circle_coordinate(side: u16, radius: u16, part: i32) -> (c: i64)
    ensures
        c == on_circle(side as int, radius as int, part as int),
{
    let swing: i64 = 2 * (radius as i64);
    assert(-0x2_0000 * 0x8000_0000 <= swing * part <= 0x2_0000 * 0x8000_0000) by (nonlinear_arith)
        requires
            0 <= swing <= 0x2_0000,
            -0x8000_0000 <= part <= 0x8000_0000,
    ;
    let num: i64 = (side as i64) * (UNIT as i64) + swing * (part as i64);
    round_div(num, 2 * (UNIT as i64))
}

/// Places one node for each direction on the circle of the viewport:
/// `width / 2 + radius * cos` across and `height / 2 + radius * sin` down,
/// each rounded to the nearest cell. Fails where the viewport is too small
/// for the circle.
pub fn circular_layout(directions: &[Direction], width: u16, height: u16) -> (r: Result<
    Vec<NodePosition>,
    GraphError,
>)
    ensures
        radius(width as int, height as int) < 0 ==> r == Err::<Vec<NodePosition>, GraphError>(
            GraphError::ViewportTooSmall,
        ),
        radius(width as int, height as int) >= 0 ==> r is Ok && r->Ok_0@ == placed_all(
            directions@,
            width as int,
            height as int,
        ),
        r is Ok ==> forall|i: int|
            0 <= i < directions@.len() ==> (#[trigger] r->Ok_0@[i]).x == placed_x(
                directions@[i],
                width as int,
                height as int,
            ) && r->Ok_0@[i].y == placed_y(directions@[i], width as int, height as int),
{
    let reach: u16 = match layout_radius(width, height) {
        Ok(reach) => reach,
        Err(e) => {
            return Err(e);
        },
    };
    let mut positions: Vec<NodePosition> = Vec::new();
    let mut i: usize = 0;
    while i < directions.len()
        invariant
            i <= directions@.len(),
            reach == radius(width as int, height as int),
            positions@.len() == i,
            forall|m: int|
                0 <= m < i ==> (#[trigger] positions@[m]).x == placed_x(
                    directions@[m],
                    width as int,
                    height as int,
                ) && positions@[m].y == placed_y(directions@[m], width as int, height as int),
        decreases directions@.len() - i,
    {
        let dir: Direction = directions[i];
        let x: i64 = circle_coordinate(width, reach, dir.cos);
        let y: i64 = circle_coordinate(height, reach, dir.sin);
        positions.push(NodePosition { x, y });
        i += 1;
    }
    assert(positions@ =~= placed_all(directions@, width as int, height as int));
    Ok(positions)
}

} // verus!
