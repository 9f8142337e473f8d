use vstd::prelude::*;

use crate::components::{clamp_coord, Position};

verus! {

/// What one cell of the level is made of. Only walls block movement.
#[derive(Clone, Copy, Debug, PartialEq, Eq, Structural)]
pub enum TileType {
    Empty,
    Floor,
    Wall,
}

/// True when `(x, y)` lies in `[0, cols) x [0, rows)`.
pub open spec fn in_grid(cols: int, rows: int, x: int, y: int) -> bool {
    0 <= x < cols && 0 <= y < rows
}

/// Row-major index of the cell `(x, y)`.
pub open spec fn cell_index(cols: int, x: int, y: int) -> int {
    y * cols + x
}

/// The number of cells of a `cols` by `rows` grid.
pub(crate) fn grid_size(cols: u16, rows: u16) -> (r: usize)
    ensures
        r == cols as int * rows as int,
{
    assert(cols * rows <= 0xffff * 0xffff) by (nonlinear_arith)
        requires
            cols <= 0xffff,
            rows <= 0xffff,
    ;
    cols as usize * rows as usize
}

/// The level grid: `cols * rows` tiles in row-major order.
pub struct TileMap {
    tiles: Vec<TileType>,
    cols: u16,
    rows: u16,
}

impl TileMap {
    pub closed spec fn cols_spec(&self) -> int {
        self.cols as int
    }

    pub closed spec fn rows_spec(&self) -> int {
        self.rows as int
    }

    pub closed spec fn tiles_spec(&self) -> Seq<TileType> {
        self.tiles@
    }

    pub open spec fn wf(&self) -> bool {
        &&& self.tiles_spec().len() == self.cols_spec() * self.rows_spec()
        &&& 0 <= self.cols_spec() <= u16::MAX
        &&& 0 <= self.rows_spec() <= u16::MAX
    }

    /// The tile at an in-grid cell.
    pub open spec fn tile_at(&self, x: int, y: int) -> TileType {
        self.tiles_spec()[cell_index(self.cols_spec(), x, y)]
    }

    /// A cell blocks movement when it is off the grid or holds a wall.
    pub open spec fn blocked_spec(&self, x: int, y: int) -> bool {
        !in_grid(self.cols_spec(), self.rows_spec(), x, y) || self.tile_at(x, y) == TileType::Wall
    }

    /// Where a move by `(dx, dy)` from `p` ends: nowhere new when the
    /// destination blocks, else the destination clamped to the grid.
    pub open spec fn moved(&self, p: Position, dx: int, dy: int) -> Position {
        let nx = p.x + dx;
        let ny = p.y + dy;
        if self.blocked_spec(nx, ny) {
            p
        } else {
            Position {
                x: clamp_coord(nx, 0, self.cols_spec() - 1) as i32,
                y: clamp_coord(ny, 0, self.rows_spec() - 1) as i32,
            }
        }
    }

    pub fn new(tiles: Vec<TileType>, cols: u16, rows: u16) -> (r: TileMap)
        requires
            tiles@.len() == cols as int * rows as int,
        ensures
            r.wf(),
            r.tiles_spec() == tiles@,
            r.cols_spec() == cols,
            r.rows_spec() == rows,
    {
        TileMap { tiles, cols, rows }
    }

    pub fn cols(&self) -> (r: u16)
        ensures
            r == self.cols_spec(),
    {
        self.cols
    }

    pub fn rows(&self) -> (r: u16)
        ensures
            r == self.rows_spec(),
    {
        self.rows
    }

    pub fn tiles(&self) -> (r: &Vec<TileType>)
        ensures
            r@ == self.tiles_spec(),
    {
        &self.tiles
    }

    /// Whether the cell `(x, y)` blocks movement.
    pub fn blocked(&self, x: i64, y: i64) -> (r: bool)
        requires
            self.wf(),
        ensures
            r == self.blocked_spec(x as int, y as int),
    {
        if x < 0 || y < 0 || x >= self.cols as i64 || y >= self.rows as i64 {
            return true;
        }
        assert(y * self.cols + x < self.cols as int * self.rows as int) by (nonlinear_arith)
            requires
                0 <= y < self.rows,
                0 <= x < self.cols,
        ;
        let len = self.tiles.len();
        assert(0 <= y * self.cols) by (nonlinear_arith)
            requires
                0 <= y,
                0 <= self.cols,
        ;
        let idx = y as usize * self.cols as usize + x as usize;
        match self.tiles[idx] {
            TileType::Wall => true,
            TileType::Empty | TileType::Floor => false,
        }
    }

    /// Moves `pos` by `(dx, dy)` unless the destination blocks; a move that
    /// goes through is clamped to the grid.
    pub fn try_move(&self, pos: Position, dx: i32, dy: i32) -> (r: Position)
        requires
            self.wf(),
        ensures
            r == self.moved(pos, dx as int, dy as int),
            in_grid(self.cols_spec(), self.rows_spec(), pos.x + dx, pos.y + dy)
                && self.tile_at(pos.x + dx, pos.y + dy) == TileType::Wall ==> r == pos,
    {
        let nx: i64 = pos.x as i64 + dx as i64;
        let ny: i64 = pos.y as i64 + dy as i64;
        if self.blocked(nx, ny) {
            return pos;
        }
        let mut p = Position { x: nx as i32, y: ny as i32 };
        p.clamp(0, self.cols as i32 - 1, 0, self.rows as i32 - 1);
        p
    }
}

/// On a move of one step along one axis from a cell of the grid to a cell off
/// it, the position that comes back is the destination clamped to the grid,
/// each axis on its own.
pub proof fn lemma_step_off_grid_is_clamped(map: TileMap, p: Position, dx: int, dy: int)
    requires
        map.wf(),
        in_grid(map.cols_spec(), map.rows_spec(), p.x as int, p.y as int),
        -1 <= dx <= 1,
        -1 <= dy <= 1,
        dx == 0 || dy == 0,
        !in_grid(map.cols_spec(), map.rows_spec(), p.x + dx, p.y + dy),
    ensures
        map.moved(p, dx, dy) == (Position {
            x: clamp_coord(p.x + dx, 0, map.cols_spec() - 1) as i32,
            y: clamp_coord(p.y + dy, 0, map.rows_spec() - 1) as i32,
        }),
{
}

} // verus!
