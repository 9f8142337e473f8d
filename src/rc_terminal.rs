use vstd::prelude::*;

use crate::offset::Offset;

verus! {

pub const UPPER_LEFT_CORNER: char = '╔';
pub const UPPER_RIGHT_CORNER: char = '╗';
pub const LOWER_LEFT_CORNER: char = '╚';
pub const LOWER_RIGHT_CORNER: char = '╝';
pub const VERTICAL_WALL: char = '║';
pub const HORIZONTAL_WALL: char = '═';

/// A glyph to print at an absolute terminal position.
#[derive(Clone, Copy, Debug, PartialEq, Eq, Structural)]
pub struct TermCell {
    pub x: i32,
    pub y: i32,
    pub glyph: char,
}

/// One row to clear from column `x` to the end of the line, after which the
/// frame's right wall is printed again at column `wall_x`.
#[derive(Clone, Copy, Debug, PartialEq, Eq, Structural)]
pub struct ClearRow {
    pub x: i32,
    pub y: i32,
    pub wall_x: i32,
}

/// The frame around the box `[minc, maxc] x [minr, maxr]`: the four corners,
/// then the top and bottom walls column by column, then the left and right
/// walls row by row.
pub open spec fn frame_cells(minc: int, minr: int, maxc: int, maxr: int) -> Seq<TermCell> {
    let corners = seq![
        TermCell { x: minc as i32, y: minr as i32, glyph: UPPER_LEFT_CORNER },
        TermCell { x: maxc as i32, y: minr as i32, glyph: UPPER_RIGHT_CORNER },
        TermCell { x: maxc as i32, y: maxr as i32, glyph: LOWER_RIGHT_CORNER },
        TermCell { x: minc as i32, y: maxr as i32, glyph: LOWER_LEFT_CORNER },
    ];
    corners + horizontal_walls(minc, minr, maxr, maxc - minc - 1) + vertical_walls(
        minc,
        minr,
        maxc,
        maxr - minr - 1,
    )
}

/// The top and bottom wall cells of the first `n` inner columns.
pub open spec fn horizontal_walls(minc: int, minr: int, maxr: int, n: int) -> Seq<TermCell> {
    Seq::new(
        (2 * n) as nat,
        |k: int|
            TermCell {
                x: (minc + 1 + k / 2) as i32,
                y: (if k % 2 == 0 { minr } else { maxr }) as i32,
                glyph: HORIZONTAL_WALL,
            },
    )
}

/// The left and right wall cells of the first `n` inner rows.
pub open spec fn vertical_walls(minc: int, minr: int, maxc: int, n: int) -> Seq<TermCell> {
    Seq::new(
        (2 * n) as nat,
        |k: int|
            TermCell {
                x: (if k % 2 == 0 { minc } else { maxc }) as i32,
                y: (minr + 1 + k / 2) as i32,
                glyph: VERTICAL_WALL,
            },
    )
}

/// The cells of the frame drawn one cell outside the `ncols` by `nrows` grid
/// that starts at `origin`.
pub fn draw_terminal_frame(origin: &Offset, ncols: u16, nrows: u16) -> (r: Vec<TermCell>)
    requires
        origin.x - 1 >= i32::MIN,
        origin.y - 1 >= i32::MIN,
        origin.x + ncols <= i32::MAX,
        origin.y + nrows <= i32::MAX,
    ensures
        r@ == frame_cells(origin.x - 1, origin.y - 1, origin.x + ncols, origin.y + nrows),
{
    let (minc, minr) = origin.apply(-1, -1);
    let (maxc, maxr) = origin.apply(ncols as i32, nrows as i32);
    let mut out: Vec<TermCell> = Vec::new();
    out.push(TermCell { x: minc, y: minr, glyph: UPPER_LEFT_CORNER });
    out.push(TermCell { x: maxc, y: minr, glyph: UPPER_RIGHT_CORNER });
    out.push(TermCell { x: maxc, y: maxr, glyph: LOWER_RIGHT_CORNER });
    out.push(TermCell { x: minc, y: maxr, glyph: LOWER_LEFT_CORNER });
    let ghost corners = out@;
    let mut col: i32 = minc + 1;
    while col < maxc
        invariant
            minc < col <= maxc,
            out@ == corners + horizontal_walls(minc as int, minr as int, maxr as int, col - minc - 1),
        decreases maxc - col,
    {
        let ghost before = out@;
        out.push(TermCell { x: col, y: minr, glyph: HORIZONTAL_WALL });
        out.push(TermCell { x: col, y: maxr, glyph: HORIZONTAL_WALL });
        col += 1;
        assert(out@ =~= corners + horizontal_walls(minc as int, minr as int, maxr as int, col - minc - 1));
    }
    let ghost walls = out@;
    let mut row: i32 = minr + 1;
    while row < maxr
        invariant
            minr < row <= maxr,
            out@ == walls + vertical_walls(minc as int, minr as int, maxc as int, row - minr - 1),
        decreases maxr - row,
    {
        out.push(TermCell { x: minc, y: row, glyph: VERTICAL_WALL });
        out.push(TermCell { x: maxc, y: row, glyph: VERTICAL_WALL });
        row += 1;
        assert(out@ =~= walls + vertical_walls(minc as int, minr as int, maxc as int, row - minr - 1));
    }
    out
}

/// The rows to clear so that the grid at `origin` is blank and the frame
/// stays: one per grid row, top to bottom.
pub fn cls(origin: &Offset, ncols: u16, nrows: u16) -> (r: Vec<ClearRow>)
    requires
        origin.x + ncols <= i32::MAX,
        origin.y + nrows <= i32::MAX,
    ensures
        r@ == Seq::new(
            nrows as nat,
            |k: int|
                ClearRow {
                    x: origin.x,
                    y: (origin.y + k) as i32,
                    wall_x: (origin.x + ncols) as i32,
                },
        ),
{
    let (minc, minr) = origin.apply(0, 0);
    let (maxc, maxr) = origin.apply(ncols as i32, nrows as i32);
    let mut out: Vec<ClearRow> = Vec::new();
    let mut row: i32 = minr;
    while row < maxr
        invariant
            minr <= row <= maxr,
            minc == origin.x,
            minr == origin.y,
            maxc == origin.x + ncols,
            maxr == origin.y + nrows,
            out@ == Seq::new(
                (row - minr) as nat,
                |k: int| ClearRow { x: origin.x, y: (origin.y + k) as i32, wall_x: (origin.x + ncols) as i32 },
            ),
        decreases maxr - row,
    {
        out.push(ClearRow { x: minc, y: row, wall_x: maxc });
        row += 1;
        assert(out@ =~= Seq::new(
            (row - minr) as nat,
            |k: int| ClearRow { x: origin.x, y: (origin.y + k) as i32, wall_x: (origin.x + ncols) as i32 },
        ));
    }
    out
}

} // verus!
