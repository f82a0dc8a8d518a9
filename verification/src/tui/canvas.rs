//! The canvas: rows of characters that a drawing is built on, cell by
//! cell, before it becomes a frame of text. A write to a cell that the
//! canvas does not have is skipped.

use vstd::prelude::*;
use crate::tui::text::{lines, repeated};

verus! {

/// The rows of a canvas, each as its sequence of characters.
pub open spec fn cells(canvas: Vec<Vec<char>>) -> Seq<Seq<char>> {
    Seq::new(canvas@.len(), |r: int| canvas@[r]@)
}

/// The character of an empty cell.
pub const BLANK: char = ' ';

/// A canvas of `height` rows of `width` blank cells.
pub open spec fn blank(width: nat, height: nat) -> Seq<Seq<char>> {
    Seq::new(height, |r: int| Seq::new(width, |c: int| BLANK))
}

/// `grid` with `glyph` in column `x` of row `y`; `grid` itself where it has
/// no such cell.
pub open spec fn with_cell(grid: Seq<Seq<char>>, x: int, y: int, glyph: char) -> Seq<Seq<char>> {
    Seq::new(
        grid.len(),
        |r: int|
            Seq::new(
                grid[r].len(),
                |c: int|
                    if r == y && c == x {
                        glyph
                    } else {
                        grid[r][c]
                    },
            ),
    )
}

/// `grid` with the first `t` characters of `text` written into row `y`
/// from column `x` on.
pub open spec fn with_text(grid: Seq<Seq<char>>, x: int, y: int, text: Seq<char>, t: int) -> Seq<
    Seq<char>,
> {
    Seq::new(
        grid.len(),
        |r: int|
            Seq::new(
                grid[r].len(),
                |c: int|
                    if r == y && x <= c < x + t {
                        text[c - x]
                    } else {
                        grid[r][c]
                    },
            ),
    )
}

/// A row of `n` cells that all hold `glyph`.
fn repeat_cells(glyph: char, n: u16) -> (row: Vec<char>)
    ensures
        row@ == repeated(glyph, n as nat),
{
    let mut row: Vec<char> = Vec::new();
    let mut c: u16 = 0;
    while c < n
        invariant
            c <= n,
            row@ == repeated(glyph, c as nat),
        decreases n - c,
    {
        row.push(glyph);
        c += 1;
    }
    row
}

/// A canvas of `height` rows of `width` blank cells.
pub(crate) fn blank_canvas(width: u16, height: u16) -> (canvas: Vec<Vec<char>>)
    ensures
        cells(canvas) == blank(width as nat, height as nat),
{
    let mut canvas: Vec<Vec<char>> = Vec::new();
    let mut r: u16 = 0;
    while r < height
        invariant
            r <= height,
            canvas@.len() == r,
            forall|i: int| 0 <= i < r ==> (#[trigger] canvas@[i])@ == repeated(BLANK, width as nat),
        decreases height - r,
    {
        canvas.push(repeat_cells(BLANK, width));
        r += 1;
    }
    assert(cells(canvas) =~~= blank(width as nat, height as nat));
    canvas
}

/// Writes `glyph` into column `x` of row `y`. A cell that is not on the
/// canvas is skipped.
pub(crate) fn put(canvas: &mut Vec<Vec<char>>, x: i128, y: i128, glyph: char)
    ensures
        cells(*final(canvas)) == with_cell(cells(*old(canvas)), x as int, y as int, glyph),
{
    if 0 <= y && y < canvas.len() as i128 {
        let row: usize = y as usize;
        if 0 <= x && x < canvas[row].len() as i128 {
            let column: usize = x as usize;
            canvas[row][column] = glyph;
        }
    }
    assert(cells(*canvas) =~~= with_cell(cells(*old(canvas)), x as int, y as int, glyph));
}

/// Writes `text` into row `y` from column `x` on, cell by cell. What
/// lies beyond the canvas is cut off.
pub(crate) fn stamp_text(canvas: &mut Vec<Vec<char>>, x: i64, y: i64, text: &str)
    ensures
        cells(*final(canvas)) == with_text(
            cells(*old(canvas)),
            x as int,
            y as int,
            text@,
            text@.len() as int,
        ),
{
    let len: usize = text.unicode_len();
    let mut t: usize = 0;
    assert(cells(*canvas) =~~= with_text(cells(*old(canvas)), x as int, y as int, text@, 0));
    while t < len
        invariant
            t <= len,
            len == text@.len(),
            cells(*canvas) == with_text(cells(*old(canvas)), x as int, y as int, text@, t as int),
        decreases len - t,
    {
        let glyph: char = text.get_char(t);
        put(canvas, x as i128 + t as i128, y as i128, glyph);
        assert(cells(*canvas) =~~= with_text(
            cells(*old(canvas)),
            x as int,
            y as int,
            text@,
            t + 1,
        ));
        t += 1;
    }
}

/// The rows of the canvas as lines of text.
pub(crate) fn canvas_lines(canvas: &Vec<Vec<char>>) -> (frame: Vec<String>)
    ensures
        lines(frame) == cells(*canvas),
{
    let mut frame: Vec<String> = Vec::new();
    let mut r: usize = 0;
    while r < canvas.len()
        invariant
            r <= canvas@.len(),
            frame@.len() == r,
            forall|i: int| 0 <= i < r ==> (#[trigger] frame@[i])@ == canvas@[i]@,
        decreases canvas@.len() - r,
    {
        let row: &Vec<char> = &canvas[r];
        let mut line = String::new();
        let mut c: usize = 0;
        while c < row.len()
            invariant
                c <= row@.len(),
                line@ == row@.subrange(0, c as int),
            decreases row@.len() - c,
        {
            line.push(row[c]);
            c += 1;
        }
        assert(line@ =~= row@);
        frame.push(line);
        r += 1;
    }
    assert(lines(frame) =~~= cells(*canvas));
    frame
}

} // verus!
