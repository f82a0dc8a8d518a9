//! Drawing a graph as text: its nodes on a circle, its edges as straight
//! lines between them, on a canvas of characters.

use vstd::prelude::*;
use crate::tui::layout::{circular_layout, placed_all, radius, Direction, GraphError};
use crate::tui::canvas::{
    blank, blank_canvas, canvas_lines, cells, put, stamp_text, with_text,
};
use crate::tui::text::{decimal, lines, push_decimal};
use crate::tui::line::{
    extent, lemma_advance_bounds, lemma_advance_step, lemma_line_ends, lemma_plotted_step,
    line_point, line_steps, on_line, plotted, residue, NodePosition,
};

verus! {

/// The character that marks a cell of an edge.
pub const LINE_GLYPH: char = '*';

/// `grid` with the line glyph in every cell that the line from `from` to
/// `to` is in at one of its first `k` positions.
pub open spec fn with_plotted(
    grid: Seq<Seq<char>>,
    from: NodePosition,
    to: NodePosition,
    k: int,
) -> Seq<Seq<char>> {
    Seq::new(
        grid.len(),
        |r: int|
            Seq::new(
                grid[r].len(),
                |c: int|
                    if plotted(from, to, k, c, r) {
                        LINE_GLYPH
                    } else {
                        grid[r][c]
                    },
            ),
    )
}

/// `grid` with the line glyph in every cell of the line from `from` to
/// `to`. Cells of the line that lie outside the grid are left out; the
/// shape of the grid stays.
pub open spec fn with_line(grid: Seq<Seq<char>>, from: NodePosition, to: NodePosition) -> Seq<
    Seq<char>,
> {
    with_plotted(grid, from, to, line_steps(from, to) + 1)
}

/// Draws the straight line from `from` to `to` onto the canvas: every
/// cell of the line that lies on the canvas gets the line glyph, every
/// other cell keeps its character. The line is walked with an error term
/// that is updated by additions only.
pub fn draw_line(canvas: &mut Vec<Vec<char>>, from: NodePosition, to: NodePosition)
    ensures
        cells(*final(canvas)) == with_line(cells(*old(canvas)), from, to),
{
    let x0: i128 = from.x as i128;
    let y0: i128 = from.y as i128;
    let x1: i128 = to.x as i128;
    let y1: i128 = to.y as i128;
    let dx: i128 = if x0 <= x1 {
        x1 - x0
    } else {
        x0 - x1
    };
    let down: i128 = if y0 <= y1 {
        y1 - y0
    } else {
        y0 - y1
    };
    let dy: i128 = -down;
    let sx: i128 = if x0 < x1 {
        1
    } else {
        -1
    };
    let sy: i128 = if y0 < y1 {
        1
    } else {
        -1
    };
    let mut err: i128 = dx + dy;
    let mut x: i128 = x0;
    let mut y: i128 = y0;
    let ghost steps = line_steps(from, to);
    let ghost mut k: int = 0;
    proof {
        lemma_line_ends(from, to);
        if steps > 0 {
            lemma_advance_bounds(0, dx as int, steps);
            lemma_advance_bounds(0, down as int, steps);
        }
        assert(cells(*canvas) =~~= with_plotted(cells(*old(canvas)), from, to, 0));
    }
    loop
        invariant_except_break
            0 <= k <= steps,
            (x as int, y as int) == line_point(from, to, k),
            cells(*canvas) == with_plotted(cells(*old(canvas)), from, to, k),
            steps == 0 ==> err == 0,
            steps > 0 && dx >= down ==> 2 * err == 3 * dx - 2 * down - residue(
                k,
                down as int,
                steps,
            ),
            steps > 0 && dx < down ==> 2 * err == 2 * dx - 3 * down + residue(k, dx as int, steps),
        invariant
            steps == line_steps(from, to),
            x0 == from.x,
            y0 == from.y,
            x1 == to.x,
            y1 == to.y,
            dx == extent(from.x as int, to.x as int),
            down == extent(from.y as int, to.y as int),
            dy == -down,
            sx == if x0 < x1 { 1int } else { -1int },
            sy == if y0 < y1 { 1int } else { -1int },
        ensures
            cells(*canvas) == with_line(cells(*old(canvas)), from, to),
        decreases steps - k,
    {
        put(canvas, x, y, LINE_GLYPH);
        proof {
            lemma_plotted_step(from, to, k);
            assert(cells(*canvas) =~~= with_plotted(cells(*old(canvas)), from, to, k + 1));
            lemma_line_ends(from, to);
            if steps > 0 {
                lemma_advance_bounds(k, dx as int, steps);
                lemma_advance_bounds(k, down as int, steps);
            }
        }
        if x == x1 && y == y1 {
            assert(k == steps);
            break ;
        }
        assert(k < steps);
        proof {
            lemma_advance_step(k, dx as int, steps);
            lemma_advance_step(k, down as int, steps);
            lemma_advance_bounds(k + 1, dx as int, steps);
            lemma_advance_bounds(k + 1, down as int, steps);
        }
        let e2: i128 = 2 * err;
        if e2 >= dy {
            err += dy;
            x += sx;
        }
        if e2 <= dx {
            err += dx;
            y += sy;
        }
        proof {
            k = k + 1;
        }
    }
}

/// The width of the usual viewport.
pub const WIDTH: u16 = 40;

/// The height of the usual viewport.
pub const HEIGHT: u16 = 20;

/// The rows of an adjacency matrix, each as its sequence of entries.
pub open spec fn matrix(adj: Seq<Vec<u8>>) -> Seq<Seq<u8>> {
    Seq::new(adj.len(), |i: int| adj[i]@)
}

/// Whether the matrix marks an edge between the nodes `i` and `j`. Only
/// the entries above the diagonal count: `i` is the smaller index. An
/// entry that a short row lacks marks nothing.
pub open spec fn has_edge(m: Seq<Seq<u8>>, i: int, j: int) -> bool {
    0 <= i < j < m.len() && j < m[i].len() && m[i][j] == 1
}

/// Whether `(p, q)` comes before `(i, j)` when the pairs are gone through
/// row by row.
pub open spec fn pair_before(p: int, q: int, i: int, j: int) -> bool {
    p < i || (p == i && q < j)
}

/// Whether an edge among the pairs before `(i, j)` passes through column
/// `x` of row `y`.
pub open spec fn on_edge_before(
    m: Seq<Seq<u8>>,
    pos: Seq<NodePosition>,
    i: int,
    j: int,
    x: int,
    y: int,
) -> bool {
    exists|p: int, q: int|
        pair_before(p, q, i, j) && #[trigger] has_edge(m, p, q) && on_line(pos[p], pos[q], x, y)
}

/// Whether an edge of the graph passes through column `x` of row `y`.
pub open spec fn on_edge(m: Seq<Seq<u8>>, pos: Seq<NodePosition>, x: int, y: int) -> bool {
    exists|p: int, q: int| #[trigger] has_edge(m, p, q) && on_line(pos[p], pos[q], x, y)
}

/// `grid` with the line glyph in every cell of an edge among the pairs
/// before `(i, j)`.
pub open spec fn with_edges_before(
    grid: Seq<Seq<char>>,
    m: Seq<Seq<u8>>,
    pos: Seq<NodePosition>,
    i: int,
    j: int,
) -> Seq<Seq<char>> {
    Seq::new(
        grid.len(),
        |r: int|
            Seq::new(
                grid[r].len(),
                |c: int|
                    if on_edge_before(m, pos, i, j, c, r) {
                        LINE_GLYPH
                    } else {
                        grid[r][c]
                    },
            ),
    )
}

/// `grid` with the line glyph in every cell of an edge of the graph.
pub open spec fn with_edges(grid: Seq<Seq<char>>, m: Seq<Seq<u8>>, pos: Seq<NodePosition>) -> Seq<
    Seq<char>,
> {
    Seq::new(
        grid.len(),
        |r: int|
            Seq::new(
                grid[r].len(),
                |c: int|
                    if on_edge(m, pos, c, r) {
                        LINE_GLYPH
                    } else {
                        grid[r][c]
                    },
            ),
    )
}

/// The label of node `i`: its index in decimal between round brackets.
pub open spec fn label(i: nat) -> Seq<char> {
    seq!['('] + decimal(i) + seq![')']
}

/// Whether `p` is a cell of a viewport of `width` by `height`.
pub open spec fn on_canvas(p: NodePosition, width: int, height: int) -> bool {
    0 <= p.x < width && 0 <= p.y < height
}

/// Whether the label of node `i`, which starts at the node's position
/// `p` and runs to the right, covers column `x` of row `y`. A node outside
/// the viewport has no label.
pub open spec fn label_covers(p: NodePosition, i: nat, width: int, height: int, x: int, y: int)
    -> bool {
    on_canvas(p, width, height) && y == p.y && p.x <= x < p.x + label(i).len()
}

/// The label character in column `x` of row `y` once the first `count`
/// nodes are stamped, if any covers it. Where labels overlap the node with
/// the higher index shows.
pub open spec fn label_at(
    pos: Seq<NodePosition>,
    count: nat,
    width: int,
    height: int,
    x: int,
    y: int,
) -> Option<char>
    decreases count,
{
    if count == 0 {
        None
    } else {
        let i = (count - 1) as nat;
        if label_covers(pos[i as int], i, width, height, x, y) {
            Some(label(i)[x - pos[i as int].x])
        } else {
            label_at(pos, i, width, height, x, y)
        }
    }
}

/// `grid` with the labels of the first `count` nodes stamped on it. What
/// of a label lies beyond the grid is cut off.
pub open spec fn with_labels(
    grid: Seq<Seq<char>>,
    pos: Seq<NodePosition>,
    count: nat,
    width: int,
    height: int,
) -> Seq<Seq<char>> {
    Seq::new(
        grid.len(),
        |r: int|
            Seq::new(
                grid[r].len(),
                |c: int|
                    match label_at(pos, count, width, height, c, r) {
                        Some(glyph) => glyph,
                        None => grid[r][c],
                    },
            ),
    )
}

/// The frame of a graph whose nodes are at `pos`: a blank canvas, then
/// the edges, then the labels on top of them.
pub open spec fn graph_frame(m: Seq<Seq<u8>>, pos: Seq<NodePosition>, width: nat, height: nat)
    -> Seq<Seq<char>> {
    with_labels(
        with_edges(blank(width, height), m, pos),
        pos,
        pos.len(),
        width as int,
        height as int,
    )
}

/// The frame of a graph is a rectangle: it has `height` lines of `width`
/// characters each.
pub proof fn lemma_graph_frame_shape(
    m: Seq<Seq<u8>>,
    pos: Seq<NodePosition>,
    width: nat,
    height: nat,
)
    ensures
        graph_frame(m, pos, width, height).len() == height,
        forall|r: int|
            0 <= r < height ==> (#[trigger] graph_frame(m, pos, width, height)[r]).len() == width,
{
    let edges = with_edges(blank(width, height), m, pos);
    assert forall|r: int| 0 <= r < height implies (#[trigger] graph_frame(
        m,
        pos,
        width,
        height,
    )[r]).len() == width by {
        assert(blank(width, height)[r].len() == width);
        assert(edges[r].len() == width);
    }
}

/// The single line that stands for a graph without nodes.
pub open spec fn empty_graph_frame() -> Seq<Seq<char>> {
    seq!["Empty graph."@]
}

/// What drawing a graph gives: the one-line frame for a graph without
/// nodes; else an error where the viewport is too small or the directions
/// are not one for each node; else the frame of the graph with its nodes
/// on the circle.
pub open spec fn graph_drawing(m: Seq<Seq<u8>>, dirs: Seq<Direction>, width: nat, height: nat)
    -> Result<Seq<Seq<char>>, GraphError> {
    if m.len() == 0 {
        Ok(empty_graph_frame())
    } else if radius(width as int, height as int) < 0 {
        Err(GraphError::ViewportTooSmall)
    } else if dirs.len() != m.len() {
        Err(GraphError::DirectionCount)
    } else {
        Ok(graph_frame(m, placed_all(dirs, width as int, height as int), width, height))
    }
}

/// The lines of a drawing that succeeded, or its error.
pub open spec fn drawing_view(r: Result<Vec<String>, GraphError>) -> Result<
    Seq<Seq<char>>,
    GraphError,
> {
    match r {
        Ok(frame) => Ok(lines(frame)),
        Err(e) => Err(e),
    }
}

/// Going through one more pair adds the cells of its edge, if it is one.
proof fn lemma_edge_step(m: Seq<Seq<u8>>, pos: Seq<NodePosition>, i: int, j: int)
    ensures
        forall|x: int, y: int|
            on_edge_before(m, pos, i, j + 1, x, y) == (on_edge_before(m, pos, i, j, x, y) || (
            has_edge(m, i, j) && on_line(pos[i], pos[j], x, y))),
{
    assert forall|x: int, y: int|
        on_edge_before(m, pos, i, j + 1, x, y) == (on_edge_before(m, pos, i, j, x, y) || (has_edge(
            m,
            i,
            j,
        ) && on_line(pos[i], pos[j], x, y))) by {
        if on_edge_before(m, pos, i, j + 1, x, y) {
            let (p, q) = choose|p: int, q: int|
                pair_before(p, q, i, j + 1) && #[trigger] has_edge(m, p, q) && on_line(
                    pos[p],
                    pos[q],
                    x,
                    y,
                );
            if !(p == i && q == j) {
                assert(pair_before(p, q, i, j) && has_edge(m, p, q));
            }
        }
        if on_edge_before(m, pos, i, j, x, y) {
            let (p, q) = choose|p: int, q: int|
                pair_before(p, q, i, j) && #[trigger] has_edge(m, p, q) && on_line(
                    pos[p],
                    pos[q],
                    x,
                    y,
                );
            assert(pair_before(p, q, i, j + 1) && has_edge(m, p, q));
        }
        if has_edge(m, i, j) && on_line(pos[i], pos[j], x, y) {
            assert(pair_before(i, j, i, j + 1) && has_edge(m, i, j));
        }
    }
}

/// The pairs before the end of row `i` are those before the start of the
/// next row: no edge leads to a node beyond the last.
proof fn lemma_edge_row(m: Seq<Seq<u8>>, pos: Seq<NodePosition>, i: int)
    ensures
        forall|x: int, y: int|
            on_edge_before(m, pos, i + 1, 0, x, y) == on_edge_before(m, pos, i, m.len() as int, x, y),
{
    assert forall|x: int, y: int|
        on_edge_before(m, pos, i + 1, 0, x, y) == on_edge_before(
            m,
            pos,
            i,
            m.len() as int,
            x,
            y,
        ) by {
        if on_edge_before(m, pos, i + 1, 0, x, y) {
            let (p, q) = choose|p: int, q: int|
                pair_before(p, q, i + 1, 0) && #[trigger] has_edge(m, p, q) && on_line(
                    pos[p],
                    pos[q],
                    x,
                    y,
                );
            assert(pair_before(p, q, i, m.len() as int) && has_edge(m, p, q));
        }
        if on_edge_before(m, pos, i, m.len() as int, x, y) {
            let (p, q) = choose|p: int, q: int|
                pair_before(p, q, i, m.len() as int) && #[trigger] has_edge(m, p, q) && on_line(
                    pos[p],
                    pos[q],
                    x,
                    y,
                );
            assert(pair_before(p, q, i + 1, 0) && has_edge(m, p, q));
        }
    }
}

/// Once every row is gone through, every edge is among the pairs; before
/// the first pair there is none.
proof fn lemma_edge_all(m: Seq<Seq<u8>>, pos: Seq<NodePosition>)
    ensures
        forall|x: int, y: int|
            on_edge_before(m, pos, m.len() as int, 0, x, y) == on_edge(m, pos, x, y),
        forall|x: int, y: int| !on_edge_before(m, pos, 0, 0, x, y),
{
    assert forall|x: int, y: int|
        on_edge_before(m, pos, m.len() as int, 0, x, y) == on_edge(m, pos, x, y) by {
        if on_edge_before(m, pos, m.len() as int, 0, x, y) {
            let (p, q) = choose|p: int, q: int|
                pair_before(p, q, m.len() as int, 0) && #[trigger] has_edge(m, p, q) && on_line(
                    pos[p],
                    pos[q],
                    x,
                    y,
                );
            assert(has_edge(m, p, q) && on_line(pos[p], pos[q], x, y));
        }
        if on_edge(m, pos, x, y) {
            let (p, q) = choose|p: int, q: int|
                #[trigger] has_edge(m, p, q) && on_line(pos[p], pos[q], x, y);
            assert(pair_before(p, q, m.len() as int, 0) && has_edge(m, p, q));
        }
    }
    assert forall|x: int, y: int| !on_edge_before(m, pos, 0, 0, x, y) by {
        if on_edge_before(m, pos, 0, 0, x, y) {
            let (p, q) = choose|p: int, q: int|
                pair_before(p, q, 0, 0) && #[trigger] has_edge(m, p, q) && on_line(
                    pos[p],
                    pos[q],
                    x,
                    y,
                );
            assert(false);
        }
    }
}

/// Draws the edges of the graph: for every pair of nodes `i < j` whose
/// entry in row `i` of the matrix is 1, the line between their positions.
fn draw_edges(canvas: &mut Vec<Vec<char>>, adj: &[Vec<u8>], positions: &Vec<NodePosition>)
    requires
        positions@.len() == adj@.len(),
    ensures
        cells(*final(canvas)) == with_edges(cells(*old(canvas)), matrix(adj@), positions@),
{
    let n: usize = adj.len();
    let ghost m = matrix(adj@);
    let ghost pos = positions@;
    let ghost start = cells(*canvas);
    let mut i: usize = 0;
    proof {
        lemma_edge_all(m, pos);
        assert(cells(*canvas) =~~= with_edges_before(start, m, pos, 0, 0));
    }
    while i < n
        invariant
            i <= n,
            n == adj@.len(),
            pos == positions@,
            pos.len() == n,
            m == matrix(adj@),
            start == cells(*old(canvas)),
            cells(*canvas) == with_edges_before(start, m, pos, i as int, 0),
        decreases n - i,
    {
        let mut j: usize = 0;
        while j < n
            invariant
                i < n,
                j <= n,
                n == adj@.len(),
                pos == positions@,
                pos.len() == n,
                m == matrix(adj@),
                cells(*canvas) == with_edges_before(start, m, pos, i as int, j as int),
            decreases n - j,
        {
            proof {
                lemma_edge_step(m, pos, i as int, j as int);
            }
            if i < j && j < adj[i].len() && adj[i][j] == 1 {
                assert(has_edge(m, i as int, j as int));
                draw_line(canvas, positions[i], positions[j]);
            } else {
                assert(!has_edge(m, i as int, j as int));
            }
            assert(cells(*canvas) =~~= with_edges_before(start, m, pos, i as int, j + 1));
            j += 1;
        }
        proof {
            lemma_edge_row(m, pos, i as int);
            assert(cells(*canvas) =~~= with_edges_before(start, m, pos, i + 1, 0));
        }
        i += 1;
    }
    proof {
        lemma_edge_all(m, pos);
        assert(cells(*canvas) =~~= with_edges(start, m, pos));
    }
}

/// The label of node `i`.
fn label_text(i: usize) -> (text: String)
    ensures
        text@ == label(i as nat),
{
    let mut text = String::new();
    text.push('(');
    push_decimal(&mut text, i as u64);
    text.push(')');
    text
}

/// Stamps the label of every node that lies in the viewport at the
/// node's position, in the order of the nodes.
fn stamp_labels(canvas: &mut Vec<Vec<char>>, positions: &Vec<NodePosition>, width: u16, height: u16)
    ensures
        cells(*final(canvas)) == with_labels(
            cells(*old(canvas)),
            positions@,
            positions@.len(),
            width as int,
            height as int,
        ),
{
    let ghost start = cells(*canvas);
    let mut i: usize = 0;
    assert(cells(*canvas) =~~= with_labels(start, positions@, 0, width as int, height as int));
    while i < positions.len()
        invariant
            i <= positions@.len(),
            start == cells(*old(canvas)),
            cells(*canvas) == with_labels(start, positions@, i as nat, width as int, height as int),
        decreases positions@.len() - i,
    {
        let p: NodePosition = positions[i];
        if 0 <= p.x && p.x < width as i64 && 0 <= p.y && p.y < height as i64 {
            let text: String = label_text(i);
            stamp_text(canvas, p.x, p.y, text.as_str());
        }
        assert(cells(*canvas) =~~= with_labels(
            start,
            positions@,
            (i + 1) as nat,
            width as int,
            height as int,
        ));
        i += 1;
    }
}

/// Draws the graph of an adjacency matrix as a frame of `height` lines of
/// `width` characters: its nodes on a circle, in the directions given for
/// them, a line for every edge that the matrix marks above its diagonal,
/// and on top of the lines the label of every node. A graph without nodes
/// gives a single line that says so, whatever the viewport.
pub fn draw_ascii_graph(adj: &[Vec<u8>], directions: &[Direction], width: u16, height: u16) -> (r:
    Result<Vec<String>, GraphError>)
    ensures
        drawing_view(r) == graph_drawing(
            matrix(adj@),
            directions@,
            width as nat,
            height as nat,
        ),
        adj@.len() == 0 ==> r is Ok && r->Ok_0@.len() == 1,
        r is Ok && adj@.len() > 0 ==> r->Ok_0@.len() == height && forall|i: int|
            0 <= i < height ==> (#[trigger] r->Ok_0@[i])@.len() == width,
{
    let n: usize = adj.len();
    if n == 0 {
        let mut frame: Vec<String> = Vec::new();
        frame.push(String::from_str("Empty graph."));
        assert(lines(frame) =~~= empty_graph_frame());
        return Ok(frame);
    }
    let positions: Vec<NodePosition> = match circular_layout(directions, width, height) {
        Ok(positions) => positions,
        Err(e) => {
            return Err(e);
        },
    };
    if directions.len() != n {
        return Err(GraphError::DirectionCount);
    }
    let mut canvas: Vec<Vec<char>> = blank_canvas(width, height);
    draw_edges(&mut canvas, adj, &positions);
    stamp_labels(&mut canvas, &positions, width, height);
    let frame: Vec<String> = canvas_lines(&canvas);
    proof {
        lemma_graph_frame_shape(matrix(adj@), positions@, width as nat, height as nat);
        assert forall|i: int| 0 <= i < height implies (#[trigger] frame@[i])@.len() == width by {
            assert(lines(frame)[i] == frame@[i]@);
        }
    }
    Ok(frame)
}

/// The two graphs of six nodes that the demonstration shows in turn: the
/// first at even ticks, the second at odd ones.
pub open spec fn sample_graph(tick: nat) -> Seq<Seq<u8>> {
    if tick % 2 == 0 {
        seq![
            seq![0u8, 1u8, 1u8, 0u8, 0u8, 0u8],
            seq![1u8, 0u8, 0u8, 0u8, 0u8, 0u8],
            seq![1u8, 0u8, 0u8, 1u8, 1u8, 0u8],
            seq![0u8, 0u8, 1u8, 0u8, 0u8, 0u8],
            seq![0u8, 0u8, 1u8, 0u8, 0u8, 1u8],
            seq![0u8, 0u8, 0u8, 0u8, 1u8, 0u8],
        ]
    } else {
        seq![
            seq![0u8, 1u8, 0u8, 0u8, 1u8, 0u8],
            seq![1u8, 0u8, 1u8, 0u8, 0u8, 0u8],
            seq![0u8, 1u8, 0u8, 1u8, 0u8, 0u8],
            seq![0u8, 0u8, 1u8, 0u8, 0u8, 1u8],
            seq![1u8, 0u8, 0u8, 0u8, 0u8, 0u8],
            seq![0u8, 0u8, 0u8, 1u8, 0u8, 0u8],
        ]
    }
}

/// The adjacency matrix of the graph shown at `tick`.
pub fn sample_matrix(tick: usize) -> (m: Vec<Vec<u8>>)
    ensures
        matrix(m@) == sample_graph(tick as nat),
{
    let m: Vec<Vec<u8>> = if tick % 2 == 0 {
        vec![
            vec![0u8, 1u8, 1u8, 0u8, 0u8, 0u8],
            vec![1u8, 0u8, 0u8, 0u8, 0u8, 0u8],
            vec![1u8, 0u8, 0u8, 1u8, 1u8, 0u8],
            vec![0u8, 0u8, 1u8, 0u8, 0u8, 0u8],
            vec![0u8, 0u8, 1u8, 0u8, 0u8, 1u8],
            vec![0u8, 0u8, 0u8, 0u8, 1u8, 0u8],
        ]
    } else {
        vec![
            vec![0u8, 1u8, 0u8, 0u8, 1u8, 0u8],
            vec![1u8, 0u8, 1u8, 0u8, 0u8, 0u8],
            vec![0u8, 1u8, 0u8, 1u8, 0u8, 0u8],
            vec![0u8, 0u8, 1u8, 0u8, 0u8, 1u8],
            vec![1u8, 0u8, 0u8, 0u8, 0u8, 0u8],
            vec![0u8, 0u8, 0u8, 1u8, 0u8, 0u8],
        ]
    };
    assert(matrix(m@) =~~= sample_graph(tick as nat));
    m
}

/// The frame of the demonstration at `tick`: the sample graph of that
/// tick in the usual viewport.
pub fn draw(tick: usize, directions: &[Direction]) -> (r: Result<Vec<String>, GraphError>)
    ensures
        drawing_view(r) == graph_drawing(
            sample_graph(tick as nat),
            directions@,
            WIDTH as nat,
            HEIGHT as nat,
        ),
{
    let m: Vec<Vec<u8>> = sample_matrix(tick);
    draw_ascii_graph(m.as_slice(), directions, WIDTH, HEIGHT)
}

} // verus!
