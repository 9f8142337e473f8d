use vstd::prelude::*;

use crate::components::{blank, Renderable};
use crate::offset::Offset;
use crate::tiles::{cell_index, grid_size, in_grid};

verus! {

/// One cell to repaint: its absolute terminal position and how to draw it.
#[derive(Clone, Copy, Debug, PartialEq, Eq, Structural)]
pub struct CellWrite {
    pub x: i32,
    pub y: i32,
    pub cell: Renderable,
}

/// The write that repaints the cell at row-major index `i` of a grid that is
/// `cols` wide and drawn from `origin`.
pub open spec fn write_at(origin: Offset, cols: int, i: int, cell: Renderable) -> CellWrite {
    CellWrite { x: (origin.x + i % cols) as i32, y: (origin.y + i / cols) as i32, cell }
}

/// The writes for the cells `0..n` whose new value differs from the shown one,
/// in row-major order.
pub open spec fn changed_writes(
    shown: Seq<Renderable>,
    wanted: Seq<Renderable>,
    origin: Offset,
    cols: int,
    n: nat,
) -> Seq<CellWrite>
    decreases n,
{
    if n == 0 {
        Seq::empty()
    } else {
        let before = changed_writes(shown, wanted, origin, cols, (n - 1) as nat);
        let i = n - 1;
        if shown[i] != wanted[i] {
            before.push(write_at(origin, cols, i, wanted[i]))
        } else {
            before
        }
    }
}

/// The indices of the cells whose wanted value differs from the shown one.
pub open spec fn changed_cells(shown: Seq<Renderable>, wanted: Seq<Renderable>) -> Set<int> {
    Set::new(|i: int| 0 <= i < shown.len() && shown[i] != wanted[i])
}

/// A double-buffered screen: what the terminal shows and what it should show
/// next, so that a flush repaints only the cells that differ.
pub struct Renderer {
    previous_buffer: Vec<Renderable>,
    current_buffer: Vec<Renderable>,
    origin: Offset,
    cols: u16,
    rows: u16,
    buffer_size: usize,
}

impl Renderer {
    /// What the terminal shows, cell by cell.
    pub closed spec fn shown(&self) -> Seq<Renderable> {
        self.previous_buffer@
    }

    /// What the next flush should leave on the terminal, cell by cell.
    pub closed spec fn wanted(&self) -> Seq<Renderable> {
        self.current_buffer@
    }

    pub closed spec fn origin_spec(&self) -> Offset {
        self.origin
    }

    pub closed spec fn cols_spec(&self) -> int {
        self.cols as int
    }

    pub closed spec fn rows_spec(&self) -> int {
        self.rows as int
    }

    pub closed spec fn size_spec(&self) -> int {
        self.buffer_size as int
    }

    pub open spec fn wf(&self) -> bool {
        &&& 0 < self.cols_spec() <= u16::MAX
        &&& 0 < self.rows_spec() <= u16::MAX
        &&& self.size_spec() == self.cols_spec() * self.rows_spec()
        &&& self.shown().len() == self.size_spec()
        &&& self.wanted().len() == self.size_spec()
        &&& self.origin_spec().x + self.cols_spec() <= i32::MAX
        &&& self.origin_spec().y + self.rows_spec() <= i32::MAX
    }

    /// The writes that the next flush makes.
    pub open spec fn pending_writes(&self) -> Seq<CellWrite> {
        changed_writes(
            self.shown(),
            self.wanted(),
            self.origin_spec(),
            self.cols_spec(),
            self.size_spec() as nat,
        )
    }

    pub fn cols(&self) -> (r: u16)
        ensures
            r == self.cols_spec(),
    {
        self.cols
    }

    pub fn rows(&self) -> (r: u16)
        ensures
            r == self.rows_spec(),
    {
        self.rows
    }

    pub fn origin(&self) -> (r: Offset)
        ensures
            r == self.origin_spec(),
    {
        self.origin
    }

    /// A renderer for a `cols` by `rows` grid drawn from `origin`, both buffers
    /// blank.
    pub fn new(origin: Offset, cols: u16, rows: u16) -> (r: Renderer)
        requires
            cols > 0,
            rows > 0,
            origin.x + cols <= i32::MAX,
            origin.y + rows <= i32::MAX,
        ensures
            r.wf(),
            r.origin_spec() == origin,
            r.cols_spec() == cols,
            r.rows_spec() == rows,
            r.shown() == Seq::new((cols * rows) as nat, |i: int| blank()),
            r.wanted() == Seq::new((cols * rows) as nat, |i: int| blank()),
    {
        let buffer_size = grid_size(cols, rows);
        let mut previous_buffer: Vec<Renderable> = Vec::new();
        let mut current_buffer: Vec<Renderable> = Vec::new();
        let mut i: usize = 0;
        while i < buffer_size
            invariant
                i <= buffer_size,
                previous_buffer@ == Seq::new(i as nat, |j: int| blank()),
                current_buffer@ == Seq::new(i as nat, |j: int| blank()),
            decreases buffer_size - i,
        {
            previous_buffer.push(Renderable::default());
            current_buffer.push(Renderable::default());
            i += 1;
            assert(previous_buffer@ =~= Seq::new(i as nat, |j: int| blank()));
            assert(current_buffer@ =~= Seq::new(i as nat, |j: int| blank()));
        }
        Renderer { previous_buffer, current_buffer, origin, cols, rows, buffer_size }
    }

    /// Asks for `renderable` at the grid cell `(x, y)` on the next flush.
    pub fn render(&mut self, x: i32, y: i32, renderable: &Renderable)
        requires
            old(self).wf(),
            in_grid(old(self).cols_spec(), old(self).rows_spec(), x as int, y as int),
        ensures
            final(self).wf(),
            final(self).wanted() == old(self).wanted().update(
                cell_index(old(self).cols_spec(), x as int, y as int),
                *renderable,
            ),
            final(self).shown() == old(self).shown(),
            final(self).origin_spec() == old(self).origin_spec(),
            final(self).cols_spec() == old(self).cols_spec(),
            final(self).rows_spec() == old(self).rows_spec(),
    {
        let idx = self.xy_idx(x, y);
        self.current_buffer.set(idx, *renderable);
    }

    /// Repaints every cell whose wanted value differs from the shown one, in
    /// row-major order, and records the new values as shown.
    pub fn flush(&mut self) -> (r: Vec<CellWrite>)
        requires
            old(self).wf(),
        ensures
            final(self).wf(),
            r@ == old(self).pending_writes(),
            final(self).shown() == old(self).wanted(),
            final(self).wanted() == old(self).wanted(),
            final(self).origin_spec() == old(self).origin_spec(),
            final(self).cols_spec() == old(self).cols_spec(),
            final(self).rows_spec() == old(self).rows_spec(),
    {
        let ghost shown0 = self.previous_buffer@;
        let ghost wanted = self.current_buffer@;
        let mut out: Vec<CellWrite> = Vec::new();
        let mut idx: usize = 0;
        while idx < self.buffer_size
            invariant
                self.wf(),
                idx <= self.buffer_size,
                self.current_buffer@ == wanted,
                self.origin == old(self).origin,
                self.cols == old(self).cols,
                self.rows == old(self).rows,
                self.buffer_size == old(self).buffer_size,
                forall|j: int| 0 <= j < idx ==> self.previous_buffer@[j] == wanted[j],
                forall|j: int| idx <= j < self.buffer_size ==> self.previous_buffer@[j] == shown0[j],
                out@ == changed_writes(shown0, wanted, self.origin, self.cols as int, idx as nat),
            decreases self.buffer_size - idx,
        {
            if self.previous_buffer[idx] != self.current_buffer[idx] {
                let cell = self.current_buffer[idx];
                let pos = self.origin.translate(&self.idx_xy(idx));
                out.push(CellWrite { x: pos.x, y: pos.y, cell });
                self.previous_buffer.set(idx, cell);
            }
            idx += 1;
        }
        assert(self.previous_buffer@ =~= wanted);
        out
    }

    fn xy_idx(&self, x: i32, y: i32) -> (r: usize)
        requires
            self.wf(),
            in_grid(self.cols_spec(), self.rows_spec(), x as int, y as int),
        ensures
            r == cell_index(self.cols_spec(), x as int, y as int),
            r < self.size_spec(),
    {
        proof {
            lemma_cell_in_range(self.cols as int, self.rows as int, x as int, y as int);
        }
        y as usize * self.cols as usize + x as usize
    }

    /// The grid cell at row-major index `idx`.
    fn idx_xy(&self, idx: usize) -> (r: Offset)
        requires
            self.wf(),
            idx < self.size_spec(),
        ensures
            r.x == idx as int % self.cols_spec(),
            r.y == idx as int / self.cols_spec(),
            0 <= r.x < self.cols_spec(),
            0 <= r.y < self.rows_spec(),
    {
        proof {
            lemma_index_splits(self.cols as int, self.rows as int, idx as int);
        }
        let x = idx % self.cols as usize;
        let y = idx / self.cols as usize;
        Offset::new(x as i32, y as i32)
    }
}

proof fn lemma_cell_in_range(cols: int, rows: int, x: int, y: int)
    requires
        in_grid(cols, rows, x, y),
    ensures
        0 <= y * cols <= cell_index(cols, x, y) < cols * rows,
{
    assert(0 <= y * cols) by (nonlinear_arith)
        requires
            0 <= y,
            0 <= cols,
    ;
    assert(y * cols + x < cols * rows) by (nonlinear_arith)
        requires
            0 <= y < rows,
            0 <= x < cols,
    ;
}

proof fn lemma_index_splits(cols: int, rows: int, i: int)
    requires
        0 < cols,
        0 <= i < cols * rows,
    ensures
        0 <= i % cols < cols,
        0 <= i / cols < rows,
{
    assert(0 <= i / cols < rows) by (nonlinear_arith)
        requires
            0 < cols,
            0 <= i < cols * rows,
    ;
}

/// The indices below `n` of the cells whose wanted value differs from the
/// shown one.
spec fn changed_below(shown: Seq<Renderable>, wanted: Seq<Renderable>, n: int) -> Set<int> {
    Set::new(|i: int| 0 <= i < n && shown[i] != wanted[i])
}

proof fn lemma_changed_writes_count(
    shown: Seq<Renderable>,
    wanted: Seq<Renderable>,
    origin: Offset,
    cols: int,
    n: nat,
)
    requires
        n <= shown.len(),
    ensures
        changed_below(shown, wanted, n as int).finite(),
        changed_writes(shown, wanted, origin, cols, n).len() == changed_below(
            shown,
            wanted,
            n as int,
        ).len(),
        forall|i: int|
            #[trigger] changed_below(shown, wanted, n as int).contains(i) ==> changed_writes(
                shown,
                wanted,
                origin,
                cols,
                n,
            ).contains(write_at(origin, cols, i, wanted[i])),
    decreases n,
{
    let s = changed_below(shown, wanted, n as int);
    if n == 0 {
        assert(s =~= Set::empty());
    } else {
        let m = (n - 1) as nat;
        lemma_changed_writes_count(shown, wanted, origin, cols, m);
        let t = changed_below(shown, wanted, m as int);
        let before = changed_writes(shown, wanted, origin, cols, m);
        let after = changed_writes(shown, wanted, origin, cols, n);
        if shown[m as int] != wanted[m as int] {
            assert(s =~= t.insert(m as int));
            assert(!t.contains(m as int));
            assert(after == before.push(write_at(origin, cols, m as int, wanted[m as int])));
            assert forall|i: int| #[trigger] s.contains(i) implies after.contains(
                write_at(origin, cols, i, wanted[i]),
            ) by {
                if i == m {
                    assert(after[after.len() - 1] == write_at(origin, cols, i, wanted[i]));
                } else {
                    assert(t.contains(i));
                    let k = choose|k: int|
                        0 <= k < before.len() && before[k] == write_at(origin, cols, i, wanted[i]);
                    assert(after[k] == before[k]);
                }
            }
        } else {
            assert(s =~= t);
        }
    }
}

/// A flush makes one write for each cell whose wanted value differs from the
/// shown one, never more and never fewer, and each such cell is written with
/// its wanted value.
pub proof fn lemma_flush_writes_changed_cells(r: Renderer)
    requires
        r.wf(),
    ensures
        changed_cells(r.shown(), r.wanted()).finite(),
        r.pending_writes().len() == changed_cells(r.shown(), r.wanted()).len(),
        forall|i: int|
            #[trigger] changed_cells(r.shown(), r.wanted()).contains(i)
                ==> r.pending_writes().contains(
                write_at(r.origin_spec(), r.cols_spec(), i, r.wanted()[i]),
            ),
{
    let n = r.size_spec() as nat;
    lemma_changed_writes_count(r.shown(), r.wanted(), r.origin_spec(), r.cols_spec(), n);
    assert(changed_cells(r.shown(), r.wanted()) =~= changed_below(r.shown(), r.wanted(), n as int));
}

pub(crate) proof fn lemma_no_writes_when_equal(shown: Seq<Renderable>, origin: Offset, cols: int, n: nat)
    ensures
        changed_writes(shown, shown, origin, cols, n) == Seq::<CellWrite>::empty(),
    decreases n,
{
    if n > 0 {
        lemma_no_writes_when_equal(shown, origin, cols, (n - 1) as nat);
    }
}

/// After a flush, a second flush with no render in between writes nothing.
pub proof fn lemma_second_flush_writes_nothing(first: Renderer, second: Renderer)
    requires
        first.wf(),
        second.wf(),
        second.shown() == first.wanted(),
        second.wanted() == first.wanted(),
    ensures
        second.pending_writes() == Seq::<CellWrite>::empty(),
{
    lemma_no_writes_when_equal(second.shown(), second.origin_spec(), second.cols_spec(), second.size_spec() as nat);
}

} // verus!
