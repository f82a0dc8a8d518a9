//! The cells of a straight line between two grid positions.
//!
//! A line from `from` to `to` takes as many steps as the longer of its two
//! extents. After `k` of them it has covered the `k`-th part of each
//! extent, rounded to the nearest cell.

use vstd::prelude::*;
use vstd::arithmetic::div_mod::lemma_fundamental_div_mod_converse;

verus! {

/// A cell of the grid: `x` counts columns from the left, `y` rows from the
/// top. A position may lie outside the canvas it is drawn on.
#[derive(Clone, Copy, Debug, PartialEq, Eq, Structural)]
pub struct NodePosition {
    pub x: i64,
    pub y: i64,
}

/// The distance between two coordinates.
pub open spec fn extent(a: int, b: int) -> int {
    if a <= b {
        b - a
    } else {
        a - b
    }
}

/// The coordinate `d` cells away from `a` in the direction of `b`.
pub open spec fn toward(a: int, b: int, d: int) -> int {
    if a < b {
        a + d
    } else {
        a - d
    }
}

/// The number of steps of the line: its longer extent.
pub open spec fn line_steps(from: NodePosition, to: NodePosition) -> int {
    let across = extent(from.x as int, to.x as int);
    let down = extent(from.y as int, to.y as int);
    if across >= down {
        across
    } else {
        down
    }
}

/// How far a line of `steps` steps has come along an axis of length
/// `length` after `k` steps: `k * length / steps`, rounded to the nearest
/// whole number, a half upwards.
pub open spec fn advance(k: int, length: int, steps: int) -> int {
    (2 * k * length + steps) / (2 * steps)
}

/// The remainder of the division in `advance`: what the rounding leaves
/// over, in parts of `2 * steps`. The error term that a walk along the
/// line keeps is this remainder, shifted.
pub open spec fn residue(k: int, length: int, steps: int) -> int {
    (2 * k * length + steps) % (2 * steps)
}

/// The cell that the line is in after `k` steps.
pub open spec fn line_point(from: NodePosition, to: NodePosition, k: int) -> (int, int) {
    let steps = line_steps(from, to);
    if steps == 0 {
        (from.x as int, from.y as int)
    } else {
        (
            toward(from.x as int, to.x as int, advance(k, extent(from.x as int, to.x as int), steps)),
            toward(from.y as int, to.y as int, advance(k, extent(from.y as int, to.y as int), steps)),
        )
    }
}

/// Whether the line is in column `x` of row `y` after one of its first `k`
/// positions.
pub open spec fn plotted(from: NodePosition, to: NodePosition, k: int, x: int, y: int) -> bool {
    exists|m: int| 0 <= m < k && #[trigger] line_point(from, to, m) == (x, y)
}

/// Whether the line from `from` to `to` passes through column `x` of row
/// `y`.
pub open spec fn on_line(from: NodePosition, to: NodePosition, x: int, y: int) -> bool {
    plotted(from, to, line_steps(from, to) + 1, x, y)
}

/// The line starts at `from`, and after all its steps it is at `to`.
pub proof fn lemma_line_ends(from: NodePosition, to: NodePosition)
    ensures
        line_point(from, to, 0) == (from.x as int, from.y as int),
        line_point(from, to, line_steps(from, to)) == (to.x as int, to.y as int),
        on_line(from, to, from.x as int, from.y as int),
        on_line(from, to, to.x as int, to.y as int),
{
    let steps = line_steps(from, to);
    if steps > 0 {
        lemma_advance_bounds(0, extent(from.x as int, to.x as int), steps);
        lemma_advance_bounds(0, extent(from.y as int, to.y as int), steps);
        lemma_advance_bounds(steps, extent(from.x as int, to.x as int), steps);
        lemma_advance_bounds(steps, extent(from.y as int, to.y as int), steps);
    }
    assert(line_point(from, to, 0) == (from.x as int, from.y as int));
    assert(line_point(from, to, steps) == (to.x as int, to.y as int));
}

/// Along an axis the line never leaves its span: it starts at 0, ends at
/// `length`, and along its longer axis it moves one cell with each step.
pub proof fn lemma_advance_bounds(k: int, length: int, steps: int)
    requires
        0 <= k <= steps,
        0 <= length <= steps,
        0 < steps,
    ensures
        0 <= advance(k, length, steps) <= length,
        0 <= residue(k, length, steps) < 2 * steps,
        2 * k * length + steps == 2 * steps * advance(k, length, steps) + residue(
            k,
            length,
            steps,
        ),
        k == 0 ==> advance(k, length, steps) == 0 && residue(k, length, steps) == steps,
        k == steps ==> advance(k, length, steps) == length,
        length == steps ==> advance(k, length, steps) == k && residue(k, length, steps) == steps,
{
    let num = 2 * k * length + steps;
    let den = 2 * steps;
    let q = num / den;
    let r = num % den;
    assert(num == den * q + r && 0 <= r < den) by {
        vstd::arithmetic::div_mod::lemma_fundamental_div_mod(num, den);
    }
    assert(0 <= 2 * k * length <= 2 * steps * length) by (nonlinear_arith)
        requires
            0 <= k <= steps,
            0 <= length,
    ;
    assert(q >= 0) by (nonlinear_arith)
        requires
            num == den * q + r,
            r < den,
            num >= 0,
            den > 0,
    ;
    assert(q <= length) by (nonlinear_arith)
        requires
            num == den * q + r,
            0 <= r,
            num <= 2 * steps * length + steps,
            den == 2 * steps,
            steps > 0,
    ;
    if k == 0 {
        assert(0 * length == 0);
        lemma_fundamental_div_mod_converse(num, den, 0, steps);
    }
    if k == steps {
        assert(num == length * den + steps) by (nonlinear_arith)
            requires
                num == 2 * k * length + steps,
                den == 2 * steps,
                k == steps,
        ;
        lemma_fundamental_div_mod_converse(num, den, length, steps);
    }
    if length == steps {
        assert(num == k * den + steps) by (nonlinear_arith)
            requires
                num == 2 * k * length + steps,
                den == 2 * steps,
                length == steps,
        ;
        lemma_fundamental_div_mod_converse(num, den, k, steps);
    }
}

/// From one step to the next the line moves by at most one cell along an
/// axis: by one where the distance rounded away so far, with one more
/// step's share, makes up a whole cell.
pub proof fn lemma_advance_step(k: int, length: int, steps: int)
    requires
        0 <= k < steps,
        0 <= length <= steps,
    ensures
        residue(k, length, steps) + 2 * length >= 2 * steps ==> advance(k + 1, length, steps)
            == advance(k, length, steps) + 1 && residue(k + 1, length, steps) == residue(
            k,
            length,
            steps,
        ) + 2 * length - 2 * steps,
        residue(k, length, steps) + 2 * length < 2 * steps ==> advance(k + 1, length, steps)
            == advance(k, length, steps) && residue(k + 1, length, steps) == residue(
            k,
            length,
            steps,
        ) + 2 * length,
{
    lemma_advance_bounds(k, length, steps);
    let q = advance(k, length, steps);
    let r = residue(k, length, steps);
    let den = 2 * steps;
    let next = 2 * (k + 1) * length + steps;
    assert(next == 2 * k * length + steps + 2 * length) by (nonlinear_arith)
        requires
            next == 2 * (k + 1) * length + steps,
    ;
    if r + 2 * length >= den {
        assert(next == (q + 1) * den + (r + 2 * length - den)) by (nonlinear_arith)
            requires
                next == den * q + r + 2 * length,
        ;
        lemma_fundamental_div_mod_converse(next, den, q + 1, r + 2 * length - den);
    } else {
        assert(next == q * den + (r + 2 * length)) by (nonlinear_arith)
            requires
                next == den * q + r + 2 * length,
        ;
        lemma_fundamental_div_mod_converse(next, den, q, r + 2 * length);
    }
}

/// The cells of the first `k + 1` positions are those of the first `k`
/// and the cell of position `k`.
pub proof fn lemma_plotted_step(from: NodePosition, to: NodePosition, k: int)
    requires
        0 <= k,
    ensures
        forall|x: int, y: int|
            plotted(from, to, k + 1, x, y) == (plotted(from, to, k, x, y) || line_point(
                from,
                to,
                k,
            ) == (x, y)),
{
    assert forall|x: int, y: int|
        plotted(from, to, k + 1, x, y) == (plotted(from, to, k, x, y) || line_point(from, to, k)
            == (x, y)) by {
        if plotted(from, to, k + 1, x, y) {
            let m = choose|m: int| 0 <= m < k + 1 && #[trigger] line_point(from, to, m) == (x, y);
            if m < k {
                assert(plotted(from, to, k, x, y));
            }
        }
        if plotted(from, to, k, x, y) {
            let m = choose|m: int| 0 <= m < k && #[trigger] line_point(from, to, m) == (x, y);
            assert(0 <= m < k + 1 && line_point(from, to, m) == (x, y));
        }
        if line_point(from, to, k) == (x, y) {
            assert(0 <= k < k + 1 && line_point(from, to, k) == (x, y));
        }
    }
}

/// From one position to the next the line moves one cell along its
/// longer axis and at most one cell along the other, never away from
/// `to`: it has no gaps.
pub proof fn lemma_line_connected(from: NodePosition, to: NodePosition, k: int)
    requires
        0 <= k < line_steps(from, to),
    ensures
        ({
            let here = line_point(from, to, k);
            let next = line_point(from, to, k + 1);
            let across = extent(from.x as int, to.x as int);
            let down = extent(from.y as int, to.y as int);
            &&& next.0 == here.0 || next.0 == toward(here.0, to.x as int, 1)
            &&& next.1 == here.1 || next.1 == toward(here.1, to.y as int, 1)
            &&& across >= down ==> next.0 != here.0
            &&& down >= across ==> next.1 != here.1
        }),
{
    let steps = line_steps(from, to);
    let across = extent(from.x as int, to.x as int);
    let down = extent(from.y as int, to.y as int);
    lemma_advance_step(k, across, steps);
    lemma_advance_step(k, down, steps);
    lemma_advance_bounds(k, across, steps);
    lemma_advance_bounds(k, down, steps);
    lemma_advance_bounds(k + 1, across, steps);
    lemma_advance_bounds(k + 1, down, steps);
}

/// The line stays within the rectangle that `from` and `to` span.
pub proof fn lemma_line_within(from: NodePosition, to: NodePosition, k: int)
    requires
        0 <= k <= line_steps(from, to),
    ensures
        ({
            let here = line_point(from, to, k);
            &&& from.x <= here.0 <= to.x || to.x <= here.0 <= from.x
            &&& from.y <= here.1 <= to.y || to.y <= here.1 <= from.y
        }),
{
    let steps = line_steps(from, to);
    if steps > 0 {
        lemma_advance_bounds(k, extent(from.x as int, to.x as int), steps);
        lemma_advance_bounds(k, extent(from.y as int, to.y as int), steps);
    }
}

/// The line between a cell and itself is that cell and no other.
pub proof fn lemma_line_of_one_cell(p: NodePosition, x: int, y: int)
    ensures
        on_line(p, p, x, y) <==> (x == p.x && y == p.y),
{
    assert(line_steps(p, p) == 0);
    if on_line(p, p, x, y) {
        let m = choose|m: int| 0 <= m < 1 && #[trigger] line_point(p, p, m) == (x, y);
        assert(line_point(p, p, m) == (p.x as int, p.y as int));
    }
    if x == p.x && y == p.y {
        assert(line_point(p, p, 0) == (x, y));
    }
}

/// A line within one column is the run of cells between its ends, and so
/// is a line within one row.
pub proof fn lemma_line_straight(from: NodePosition, to: NodePosition, x: int, y: int)
    requires
        from.x == to.x || from.y == to.y,
    ensures
        from.x == to.x ==> (on_line(from, to, x, y) <==> x == from.x && (from.y <= y <= to.y
            || to.y <= y <= from.y)),
        from.y == to.y ==> (on_line(from, to, x, y) <==> y == from.y && (from.x <= x <= to.x
            || to.x <= x <= from.x)),
{
    let steps = line_steps(from, to);
    let across = extent(from.x as int, to.x as int);
    let down = extent(from.y as int, to.y as int);
    if steps == 0 {
        lemma_line_of_one_cell(from, x, y);
        assert(to == from);
    } else {
        assert forall|m: int| 0 <= m <= steps implies #[trigger] line_point(from, to, m) == (
            toward(from.x as int, to.x as int, if across == 0 { 0 } else { m }),
            toward(from.y as int, to.y as int, if down == 0 { 0 } else { m }),
        ) by {
            lemma_advance_bounds(m, across, steps);
            lemma_advance_bounds(m, down, steps);
        }
        if on_line(from, to, x, y) {
            let m = choose|m: int| 0 <= m < steps + 1 && #[trigger] line_point(from, to, m) == (x, y);
            assert(0 <= m <= steps);
        }
        if from.x == to.x && x == from.x && (from.y <= y <= to.y || to.y <= y <= from.y) {
            let m = extent(from.y as int, y);
            assert(0 <= m < steps + 1 && line_point(from, to, m) == (x, y));
        }
        if from.y == to.y && y == from.y && (from.x <= x <= to.x || to.x <= x <= from.x) {
            let m = extent(from.x as int, x);
            assert(0 <= m < steps + 1 && line_point(from, to, m) == (x, y));
        }
    }
}

} // verus!
