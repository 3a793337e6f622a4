//! The canvas that drawables paint on: its extent and its single-cell write.
use crate::cell::Cell;
use crate::paint::{in_bounds, put, Cells};
use vstd::prelude::*;

verus! {

/// A grid of cells addressed by (column, row) that ignores writes outside its extent.
pub trait CanvasLike {
    /// Whether the canvas is in a consistent state.
    spec fn valid(&self) -> bool;

    /// The number of columns.
    spec fn width_spec(&self) -> int;

    /// The number of rows.
    spec fn height_spec(&self) -> int;

    /// The cells written so far.
    spec fn cells(&self) -> Cells;

    /// The extent as (columns, rows).
    fn size(&self) -> (r: (i32, i32))
        requires
            self.valid(),
        ensures
            r.0 as int == self.width_spec(),
            r.1 as int == self.height_spec(),
    ;

    /// Writes `cell` at `pos`; a position outside the extent is left alone.
    fn set(&mut self, pos: (i32, i32), cell: Cell)
        requires
            old(self).valid(),
        ensures
            final(self).valid(),
            final(self).width_spec() == old(self).width_spec(),
            final(self).height_spec() == old(self).height_spec(),
            final(self).cells() == put(
                old(self).cells(),
                old(self).width_spec(),
                old(self).height_spec(),
                pos.0 as int,
                pos.1 as int,
                cell,
            ),
    ;
}

/// A canvas held as one row after another in a flat buffer; `None` marks a cell never written.
pub struct Grid {
    width: i32,
    height: i32,
    buf: Vec<Option<Cell>>,
}

/// Position of (x, y) in the flat buffer of a grid `w` columns wide.
pub open spec fn flat_index(w: int, x: int, y: int) -> int {
    y * w + x
}

proof fn lemma_flat_index(w: int, h: int, x1: int, y1: int, x2: int, y2: int)
    requires
        in_bounds(w, h, x1, y1),
        in_bounds(w, h, x2, y2),
    ensures
        0 <= flat_index(w, x1, y1) < w * h,
        flat_index(w, x1, y1) == flat_index(w, x2, y2) ==> x1 == x2 && y1 == y2,
{
    assert(0 <= y1 * w) by (nonlinear_arith)
        requires
            0 <= y1,
            0 <= w,
    ;
    assert(y1 * w + x1 < w * h) by (nonlinear_arith)
        requires
            0 <= x1 < w,
            0 <= y1 < h,
    ;
    if y1 < y2 {
        assert(y1 * w + x1 < y2 * w + x2) by (nonlinear_arith)
            requires
                0 <= x1 < w,
                0 <= x2,
                y1 < y2,
        ;
    } else if y2 < y1 {
        assert(y2 * w + x2 < y1 * w + x1) by (nonlinear_arith)
            requires
                0 <= x2 < w,
                0 <= x1,
                y2 < y1,
        ;
    }
}

impl Grid {
    /// The extent is not negative and the buffer holds one entry per position.
    pub closed spec fn wf(&self) -> bool {
        &&& self.width >= 0
        &&& self.height >= 0
        &&& self.width * self.height <= usize::MAX
        &&& self.buf@.len() == self.width * self.height
    }

    /// A grid of `width` columns and `height` rows with no cell written.
    pub fn new(width: i32, height: i32) -> (r: Grid)
        requires
            width >= 0,
            height >= 0,
            width * height <= usize::MAX,
        ensures
            r.valid(),
            r.width_spec() == width,
            r.height_spec() == height,
            r.cells() == Map::<(int, int), Cell>::empty(),
    {
        let n: usize = (width as usize) * (height as usize);
        let mut buf: Vec<Option<Cell>> = Vec::new();
        let mut i: usize = 0;
        while i < n
            invariant
                i <= n,
                buf@.len() == i,
                forall|k: int| 0 <= k < i ==> buf@[k] is None,
            decreases n - i,
        {
            buf.push(None);
            i = i + 1;
        }
        let r = Grid { width, height, buf };
        assert forall|p: (int, int)| !r.cells().contains_key(p) by {
            if in_bounds(width as int, height as int, p.0, p.1) {
                lemma_flat_index(width as int, height as int, p.0, p.1, p.0, p.1);
            }
        }
        assert(r.cells() =~= Map::<(int, int), Cell>::empty());
        r
    }

    /// The cell at (x, y), if one was written there.
    pub fn get(&self, x: i32, y: i32) -> (r: Option<Cell>)
        requires
            self.valid(),
        ensures
            r == (if self.cells().contains_key((x as int, y as int)) {
                Some(self.cells()[(x as int, y as int)])
            } else {
                None
            }),
    {
        if x < 0 || y < 0 || x >= self.width || y >= self.height {
            return None;
        }
        proof {
            lemma_flat_index(self.width as int, self.height as int, x as int, y as int, x as int, y as int);
        }
        let idx: usize = (y as usize) * (self.width as usize) + (x as usize);
        self.buf[idx]
    }
}

impl CanvasLike for Grid {
    open spec fn valid(&self) -> bool {
        self.wf()
    }

    closed spec fn width_spec(&self) -> int {
        self.width as int
    }

    closed spec fn height_spec(&self) -> int {
        self.height as int
    }

    closed spec fn cells(&self) -> Cells {
        Map::new(
            |p: (int, int)|
                in_bounds(self.width as int, self.height as int, p.0, p.1)
                    && self.buf@[flat_index(self.width as int, p.0, p.1)] is Some,
            |p: (int, int)| self.buf@[flat_index(self.width as int, p.0, p.1)]->Some_0,
        )
    }

    fn size(&self) -> (r: (i32, i32)) {
        (self.width, self.height)
    }

    fn set(&mut self, pos: (i32, i32), cell: Cell) {
        let (x, y) = pos;
        if x < 0 || y < 0 || x >= self.width || y >= self.height {
            return;
        }
        let ghost pre = self.cells();
        let ghost old_buf = self.buf@;
        let ghost w = self.width as int;
        let ghost h = self.height as int;
        proof {
            lemma_flat_index(w, h, x as int, y as int, x as int, y as int);
        }
        let idx: usize = (y as usize) * (self.width as usize) + (x as usize);
        self.buf.set(idx, Some(cell));
        assert forall|p: (int, int)| #[trigger] in_bounds(w, h, p.0, p.1) && p != (x as int, y as int) implies
            self.buf@[flat_index(w, p.0, p.1)] == old_buf[flat_index(w, p.0, p.1)] by {
            lemma_flat_index(w, h, p.0, p.1, x as int, y as int);
            lemma_flat_index(w, h, p.0, p.1, p.0, p.1);
        }
        assert(self.cells() =~= pre.insert((x as int, y as int), cell));
    }
}

} // verus!
