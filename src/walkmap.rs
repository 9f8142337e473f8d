use vstd::prelude::*;

use crate::game::{create_blank_map, GameState};
use crate::offset::Offset;
use crate::tiles::{grid_size, TileType};

verus! {

#[verifier::external_type_specification]
#[verifier::external_body]
pub struct ExThreadRng(rand::rngs::ThreadRng);

/// rand's `thread_rng` hands out this thread's generator.
pub assume_specification[ rand::thread_rng ]() -> rand::rngs::ThreadRng;

/// Relies on rand's `Rng::gen_range`: a value in `[low, high)`; it panics
/// unless `low < high`.
#[verifier::external_body]
fn gen_range(rng: &mut rand::rngs::ThreadRng, low: usize, high: usize) -> (r: usize)
    requires
        low < high,
    ensures
        low <= r < high,
{
    rand::Rng::gen_range(rng, low, high)
}

/// How many random walls the level generator tries to place.
pub const RANDOM_WALLS: usize = 400;

/// The column of the cell at row-major index `i`.
pub open spec fn col_of(cols: int, i: int) -> int {
    i % cols
}

/// The row of the cell at row-major index `i`.
pub open spec fn row_of(cols: int, i: int) -> int {
    i / cols
}

/// True when the cell at row-major index `i` lies on the outer ring of a
/// `cols` by `rows` grid.
pub open spec fn on_border(cols: int, rows: int, i: int) -> bool {
    i % cols == 0 || i % cols == cols - 1 || i / cols == 0 || i / cols == rows - 1
}

/// The row-major index of the player's start cell, when that cell is inside
/// the outer ring.
pub open spec fn inner_start(cols: int, rows: int, p: Offset) -> Option<int> {
    if 0 < p.x < cols - 1 && 0 < p.y < rows - 1 {
        Some(p.y * cols + p.x)
    } else {
        None
    }
}

/// What holds of every level that `create_map` may produce.
pub open spec fn walled_level(cols: int, rows: int, p: Offset, tiles: Seq<TileType>) -> bool {
    &&& tiles.len() == cols * rows
    &&& forall|i: int|
        0 <= i < tiles.len() ==> (#[trigger] tiles[i] == TileType::Wall || tiles[i]
            == TileType::Empty)
    &&& forall|i: int|
        0 <= i < tiles.len() && on_border(cols, rows, i) ==> #[trigger] tiles[i]
            == TileType::Wall
    &&& inner_start(cols, rows, p) is Some ==> tiles[inner_start(cols, rows, p).unwrap()]
        == TileType::Empty
}

proof fn lemma_coords(cols: int, x: int, y: int)
    requires
        0 <= x < cols,
        0 <= y,
    ensures
        (y * cols + x) % cols == x,
        (y * cols + x) / cols == y,
{
    vstd::arithmetic::div_mod::lemma_fundamental_div_mod_converse(y * cols + x, cols, y, x);
}

proof fn lemma_split(cols: int, i: int)
    requires
        0 < cols,
        0 <= i,
    ensures
        i == (i / cols) * cols + i % cols,
        0 <= i % cols < cols,
        0 <= i / cols,
{
    vstd::arithmetic::div_mod::lemma_fundamental_div_mod(i, cols);
    vstd::arithmetic::div_mod::lemma_div_pos_is_pos(i, cols);
    vstd::arithmetic::mul::lemma_mul_is_commutative(i / cols, cols);
}

proof fn lemma_row_bound(cols: int, rows: int, i: int)
    requires
        0 < cols,
        0 <= i < cols * rows,
    ensures
        i / cols < rows,
{
    assert(i / cols < rows) by (nonlinear_arith)
        requires
            0 < cols,
            0 <= i < cols * rows,
    ;
}

proof fn lemma_start_inside(cols: int, rows: int, p: Offset)
    requires
        0 < cols,
        0 < rows,
    ensures
        inner_start(cols, rows, p) is Some ==> {
            let i = inner_start(cols, rows, p).unwrap();
            &&& 0 <= i < cols * rows
            &&& i % cols == p.x
            &&& i / cols == p.y
            &&& !on_border(cols, rows, i)
        },
{
    if inner_start(cols, rows, p) is Some {
        lemma_in_range(cols, rows, p.x as int, p.y as int);
        lemma_coords(cols, p.x as int, p.y as int);
    }
}

proof fn lemma_in_range(cols: int, rows: int, x: int, y: int)
    requires
        0 <= x < cols,
        0 <= y < rows,
    ensures
        0 <= y * cols + x < cols * rows,
{
    assert(0 <= y * cols + x < cols * rows) by (nonlinear_arith)
        requires
            0 <= x < cols,
            0 <= y < rows,
    ;
}

/// Row-major index of the cell `(x, y)` in a grid `cols` wide.
pub fn xy_idx(x: usize, y: usize, cols: usize) -> (r: usize)
    requires
        y * cols + x <= usize::MAX,
    ensures
        r == y * cols + x,
{
    assert(0 <= y * cols) by (nonlinear_arith)
        requires
            0 <= y,
            0 <= cols,
    ;
    (y * cols) + x
}

/// The index of a cell of a `cols` by `rows` grid, with its coordinates
/// read back from it.
fn grid_idx(x: usize, y: usize, cols: usize, rows: usize) -> (r: usize)
    requires
        x < cols,
        y < rows,
        cols * rows <= usize::MAX,
    ensures
        r == y * cols + x,
        r < cols * rows,
        r as int % cols as int == x,
        r as int / cols as int == y,
{
    proof {
        lemma_in_range(cols as int, rows as int, x as int, y as int);
        lemma_coords(cols as int, x as int, y as int);
    }
    xy_idx(x, y, cols)
}

/// True when one of `draws` lands on the cell with row-major index `i` and
/// is not the player's start cell.
pub open spec fn drawn_wall(cols: int, draws: Seq<(usize, usize)>, start: Offset, i: int) -> bool {
    exists|k: int|
        0 <= k < draws.len() && #[trigger] draws[k].1 * cols + draws[k].0 == i && !(draws[k].0
            == start.x && draws[k].1 == start.y)
}

/// True when every draw names an inner cell of a `cols` by `rows` grid.
pub open spec fn inner_draws(cols: int, rows: int, draws: Seq<(usize, usize)>) -> bool {
    forall|k: int|
        0 <= k < draws.len() ==> 1 <= #[trigger] draws[k].0 < cols - 1 && 1 <= draws[k].1 < rows - 1
}

/// A level with walls all around its edge and a wall at each drawn inner
/// cell other than the player's start cell; every other tile is empty.
pub fn place_walls(gs: &GameState, player_position: &Offset, draws: &Vec<(usize, usize)>) -> (r: Vec<TileType>)
    requires
        gs.cols >= 3,
        gs.rows >= 3,
        inner_draws(gs.cols as int, gs.rows as int, draws@),
    ensures
        r@.len() == gs.cols * gs.rows,
        forall|i: int|
            0 <= i < r@.len() ==> #[trigger] r@[i] == if on_border(gs.cols as int, gs.rows as int, i)
                || drawn_wall(gs.cols as int, draws@, *player_position, i) {
                TileType::Wall
            } else {
                TileType::Empty
            },
        walled_level(gs.cols as int, gs.rows as int, *player_position, r@),
{
    let mut map = create_blank_map(gs);
    let cols = gs.cols as usize;
    let rows = gs.rows as usize;
    let n = grid_size(gs.cols, gs.rows);
    // Walls
    let mut x: usize = 0;
    while x < cols
        invariant
            x <= cols,
            cols == gs.cols,
            rows == gs.rows,
            cols >= 3,
            rows >= 3,
            n <= usize::MAX,
            map@.len() == n,
            n == cols * rows,
            forall|i: int|
                0 <= i < n ==> (#[trigger] map@[i] == TileType::Wall || map@[i] == TileType::Empty),
            forall|i: int|
                0 <= i < n ==> (#[trigger] map@[i] == TileType::Wall <==> ((row_of(cols as int, i) == 0
                    || row_of(cols as int, i) == rows - 1) && col_of(cols as int, i) < x)),
        decreases cols - x,
    {
        let top = grid_idx(x, 0, cols, rows);
        map.set(top, TileType::Wall);
        let bottom = grid_idx(x, rows - 1, cols, rows);
        map.set(bottom, TileType::Wall);
        assert forall|i: int| 0 <= i < n implies (#[trigger] map@[i] == TileType::Wall <==> ((row_of(cols as int, i) == 0 || row_of(cols as int, i) == rows - 1) && col_of(cols as int, i) < x + 1)) by {
            lemma_split(cols as int, i);
        }
        x += 1;
    }
    let mut y: usize = 0;
    while y < rows
        invariant
            y <= rows,
            cols == gs.cols,
            rows == gs.rows,
            cols >= 3,
            rows >= 3,
            n <= usize::MAX,
            map@.len() == n,
            n == cols * rows,
            forall|i: int|
                0 <= i < n ==> (#[trigger] map@[i] == TileType::Wall || map@[i] == TileType::Empty),
            forall|i: int|
                0 <= i < n ==> (#[trigger] map@[i] == TileType::Wall <==> (row_of(cols as int, i) == 0
                    || row_of(cols as int, i) == rows - 1 || ((col_of(cols as int, i) == 0 || col_of(cols as int, i)
                    == cols - 1) && row_of(cols as int, i) < y))),
        decreases rows - y,
    {
        let left = grid_idx(0, y, cols, rows);
        map.set(left, TileType::Wall);
        let right = grid_idx(cols - 1, y, cols, rows);
        map.set(right, TileType::Wall);
        assert forall|i: int| 0 <= i < n implies (#[trigger] map@[i] == TileType::Wall <==> (row_of(cols as int, i) == 0 || row_of(cols as int, i) == rows - 1 || ((col_of(cols as int, i) == 0 || col_of(cols as int, i) == cols - 1) && row_of(cols as int, i) < y + 1))) by {
            lemma_split(cols as int, i);
        }
        y += 1;
    }
    proof {
        lemma_start_inside(cols as int, rows as int, *player_position);
        assert forall|i: int| 0 <= i < n && on_border(cols as int, rows as int, i) implies #[trigger] map@[i] == TileType::Wall by {
            lemma_row_bound(cols as int, rows as int, i);
        }
    }
    let ghost c = cols as int;
    let ghost rw = rows as int;
    let ghost start = *player_position;
    assert forall|i: int| 0 <= i < n implies #[trigger] map@[i] == if on_border(c, rw, i) || drawn_wall(c, draws@.subrange(0, 0), start, i) {
        TileType::Wall
    } else {
        TileType::Empty
    } by {
        lemma_row_bound(c, rw, i);
    }
    let mut j: usize = 0;
    while j < draws.len()
        invariant
            j <= draws@.len(),
            cols == gs.cols,
            rows == gs.rows,
            c == cols,
            rw == rows,
            start == *player_position,
            cols >= 3,
            rows >= 3,
            n <= usize::MAX,
            n == cols * rows,
            map@.len() == n,
            inner_draws(c, rw, draws@),
            forall|i: int|
                0 <= i < n ==> #[trigger] map@[i] == if on_border(c, rw, i) || drawn_wall(c, draws@.subrange(0, j as int), start, i) {
                    TileType::Wall
                } else {
                    TileType::Empty
                },
        decreases draws@.len() - j,
    {
        let (x, y) = draws[j];
        let ghost before = draws@.subrange(0, j as int);
        let ghost after = draws@.subrange(0, j + 1);
        assert(after[j as int] == (x, y));
        let is_start = x as i64 == player_position.x as i64 && y as i64 == player_position.y as i64;
        let ghost old_map = map@;
        if !is_start {
            let idx = grid_idx(x, y, cols, rows);
            map.set(idx, TileType::Wall);
        }
        assert forall|i: int| 0 <= i < n implies #[trigger] map@[i] == if on_border(c, rw, i) || drawn_wall(c, after, start, i) {
            TileType::Wall
        } else {
            TileType::Empty
        } by {
            let hit = y * c + x == i && !is_start;
            if hit {
                assert(after[j as int].1 * c + after[j as int].0 == i);
            } else {
                assert(old_map[i] == map@[i]);
                if drawn_wall(c, after, start, i) {
                    let k = choose|k: int|
                        0 <= k < after.len() && #[trigger] after[k].1 * c + after[k].0 == i && !(after[k].0
                            == start.x && after[k].1 == start.y);
                    assert(k != j);
                    assert(before[k] == after[k]);
                }
                if drawn_wall(c, before, start, i) {
                    let k = choose|k: int|
                        0 <= k < before.len() && #[trigger] before[k].1 * c + before[k].0 == i && !(before[k].0
                            == start.x && before[k].1 == start.y);
                    assert(after[k] == before[k]);
                }
            }
        }
        j += 1;
    }
    assert(draws@.subrange(0, draws@.len() as int) =~= draws@);
    proof {
        lemma_start_inside(c, rw, start);
        if inner_start(c, rw, start) is Some {
            let ps = inner_start(c, rw, start).unwrap();
            if drawn_wall(c, draws@, start, ps) {
                let k = choose|k: int|
                    0 <= k < draws@.len() && #[trigger] draws@[k].1 * c + draws@[k].0 == ps && !(draws@[k].0
                        == start.x && draws@[k].1 == start.y);
                lemma_coords(c, draws@[k].0 as int, draws@[k].1 as int);
            }
        }
        assert forall|i: int| 0 <= i < map@.len() implies (#[trigger] map@[i] == TileType::Wall || map@[i] == TileType::Empty) by {}
        assert forall|i: int| 0 <= i < map@.len() && on_border(c, rw, i) implies #[trigger] map@[i] == TileType::Wall by {}
    }
    map
}

/// A level with walls all around its edge and walls at up to
/// `RANDOM_WALLS` random inner cells, none of them the player's start cell.
pub fn create_map(gs: &GameState, player_position: &Offset) -> (r: Vec<TileType>)
    requires
        gs.cols >= 3,
        gs.rows >= 3,
    ensures
        walled_level(gs.cols as int, gs.rows as int, *player_position, r@),
{
    let cols = gs.cols as usize;
    let rows = gs.rows as usize;
    let mut rng = rand::thread_rng();
    let mut draws: Vec<(usize, usize)> = Vec::new();
    let mut k: usize = 0;
    while k < RANDOM_WALLS
        invariant
            cols == gs.cols,
            rows == gs.rows,
            cols >= 3,
            rows >= 3,
            inner_draws(cols as int, rows as int, draws@),
        decreases RANDOM_WALLS - k,
    {
        let x = gen_range(&mut rng, 1, cols - 1);
        let y = gen_range(&mut rng, 1, rows - 1);
        draws.push((x, y));
        k += 1;
    }
    place_walls(gs, player_position, &draws)
}

} // verus!
