//! The board: a dense, row-major grid of cells with fixed dimensions,
//! together with the neighbour-counting operation on which the step rule
//! is built.

use vstd::prelude::*;

verus! {

/// The state of one grid position.
#[derive(Clone, Copy, Debug, PartialEq, Eq, Structural)]
pub enum Cell {
    Dead,
    Alive,
}

/// An (x, y) pair identifying a grid position; `x` selects the column and
/// `y` the row.
#[derive(Clone, Copy, Debug, PartialEq, Eq, Structural)]
pub struct Coord {
    pub x: usize,
    pub y: usize,
}

impl Coord {
    pub fn new(x: usize, y: usize) -> (c: Coord)
        ensures
            c.x == x,
            c.y == y,
    {
        Coord { x, y }
    }
}

/// A fixed-dimension grid of cells. `squares` stores the cells in row-major
/// order: position (x, y) lives at index `y * width + x`.
#[derive(Debug, Eq)]
pub struct Board {
    pub width: usize,
    pub height: usize,
    pub squares: Vec<Cell>,
}

impl PartialEq for Board {
    /// Deep structural equality: equal dimensions and equal cells,
    /// position for position.
    fn eq(&self, other: &Board) -> (r: bool) {
        if self.width != other.width || self.height != other.height {
            return false;
        }
        if self.squares.len() != other.squares.len() {
            return false;
        }
        let mut i: usize = 0;
        while i < self.squares.len()
            invariant
                i <= self.squares@.len(),
                self.squares@.len() == other.squares@.len(),
                forall|j: int| 0 <= j < i ==> self.squares@[j] == other.squares@[j],
            decreases self.squares@.len() - i,
        {
            if self.squares[i] != other.squares[i] {
                return false;
            }
            i += 1;
        }
        proof {
            assert(self.squares@ =~= other.squares@);
        }
        true
    }
}

impl vstd::std_specs::cmp::PartialEqSpecImpl for Board {
    open spec fn obeys_eq_spec() -> bool {
        true
    }

    open spec fn eq_spec(&self, other: &Board) -> bool {
        self.width == other.width && self.height == other.height && self.squares@
            == other.squares@
    }
}

impl Clone for Board {
    /// A deep copy with independent storage: same dimensions, same cells.
    fn clone(&self) -> (r: Board)
        ensures
            r.width == self.width,
            r.height == self.height,
            r.squares@ == self.squares@,
    {
        let squares = self.squares.clone();
        proof {
            assert(squares@ =~= self.squares@);
        }
        Board { width: self.width, height: self.height, squares }
    }
}

/// Row-major indices stay inside the grid's storage.
pub proof fn lemma_row_major_bound(w: int, h: int, x: int, y: int)
    requires
        0 <= x < w,
        0 <= y < h,
    ensures
        0 <= y * w + x < w * h,
        y * w >= 0,
{
    assert(0 <= y * w + x < w * h) by (nonlinear_arith)
        requires
            0 <= x < w,
            0 <= y < h,
    ;
    assert(y * w >= 0) by (nonlinear_arith)
        requires
            0 <= y,
            0 < w,
    ;
}

/// Row-major indexing is injective: distinct in-range positions map to
/// distinct storage indices.
pub proof fn lemma_row_major_injective(w: int, x1: int, y1: int, x2: int, y2: int)
    requires
        0 <= x1 < w,
        0 <= x2 < w,
        0 <= y1,
        0 <= y2,
        y1 * w + x1 == y2 * w + x2,
    ensures
        x1 == x2,
        y1 == y2,
{
    assert(x1 == x2 && y1 == y2) by (nonlinear_arith)
        requires
            0 <= x1 < w,
            0 <= x2 < w,
            0 <= y1,
            0 <= y2,
            y1 * w + x1 == y2 * w + x2,
    ;
}

/// Every storage index splits back into the unique in-range position it
/// belongs to: `i == (i / w) * w + i % w` with `i % w < w` and `i / w < h`.
pub proof fn lemma_row_major_split(w: int, h: int, i: int)
    requires
        0 < w,
        0 <= i < w * h,
    ensures
        0 <= i % w < w,
        0 <= i / w < h,
        (i / w) * w + i % w == i,
{
    vstd::arithmetic::div_mod::lemma_fundamental_div_mod(i, w);
    vstd::arithmetic::div_mod::lemma_mod_bound(i, w);
    vstd::arithmetic::div_mod::lemma_div_pos_is_pos(i, w);
    let q: int = i / w;
    let r: int = i % w;
    vstd::arithmetic::mul::lemma_mul_is_commutative(w, q);
    assert(q < h) by (nonlinear_arith)
        requires
            0 < w,
            i < w * h,
            i == w * q + r,
            0 <= r,
    ;
}

/// 1 if position (x, y) lies on the board and holds a live cell, else 0.
/// Off-board positions weigh 0, which is exactly the clipped (non-wrapping)
/// boundary rule: cells beyond an edge simply do not exist.
pub open spec fn alive_weight(b: Board, x: int, y: int) -> int {
    if b.in_bounds(x, y) && b.cell_at(x, y) == Cell::Alive {
        1
    } else {
        0
    }
}

/// The number of live cells among the up-to-eight positions horizontally,
/// vertically or diagonally adjacent to (x, y), the centre itself excluded.
pub open spec fn live_neighbours(b: Board, x: int, y: int) -> int {
    alive_weight(b, x - 1, y - 1) + alive_weight(b, x, y - 1) + alive_weight(b, x + 1, y - 1)
        + alive_weight(b, x - 1, y) + alive_weight(b, x + 1, y) + alive_weight(b, x - 1, y + 1)
        + alive_weight(b, x, y + 1) + alive_weight(b, x + 1, y + 1)
}

impl Board {
    /// The storage invariant: exactly one slot per grid position.
    pub open spec fn wf(&self) -> bool {
        self.squares@.len() == self.width * self.height
    }

    /// Position (x, y) lies on the board.
    pub open spec fn in_bounds(&self, x: int, y: int) -> bool {
        0 <= x < self.width as int && 0 <= y < self.height as int
    }

    /// The cell stored for position (x, y).
    pub open spec fn cell_at(&self, x: int, y: int) -> Cell {
        self.squares@[y * self.width as int + x]
    }

    /// Every cell of the board is dead.
    pub open spec fn all_dead(&self) -> bool {
        forall|x: int, y: int| self.in_bounds(x, y) ==> #[trigger] self.cell_at(x, y) == Cell::Dead
    }

    /// Allocates a `width` by `height` board with every cell dead. A zero
    /// width or height gives a valid empty board with no cells.
    pub fn new(width: usize, height: usize) -> (b: Board)
        requires
            width * height <= usize::MAX,
        ensures
            b.wf(),
            b.width == width,
            b.height == height,
            b.all_dead(),
    {
        let n: usize = width * height;
        let mut squares: Vec<Cell> = Vec::new();
        let mut i: usize = 0;
        while i < n
            invariant
                i <= n,
                squares@.len() == i,
                forall|j: int| 0 <= j < i ==> squares@[j] == Cell::Dead,
            decreases n - i,
        {
            squares.push(Cell::Dead);
            i += 1;
        }
        let b = Board { width, height, squares };
        proof {
            assert forall|x: int, y: int| b.in_bounds(x, y) implies #[trigger] b.cell_at(x, y)
                == Cell::Dead by {
                lemma_row_major_bound(width as int, height as int, x, y);
            }
        }
        b
    }

    /// The storage index of an in-bounds position fits the storage: it is
    /// in range for `squares`, and the arithmetic that forms it stays within
    /// the machine's index type.
    pub proof fn lemma_index_fits(&self, x: int, y: int)
        requires
            self.wf(),
            self.in_bounds(x, y),
        ensures
            0 <= y * self.width as int + x < self.squares@.len(),
            self.squares@.len() <= usize::MAX,
            y * self.width as int >= 0,
    {
        lemma_row_major_bound(self.width as int, self.height as int, x, y);
        assert(self.squares.len() == self.squares@.len());
    }

    /// Reads the cell at `c`, which must be on the board.
    #[inline]
    pub fn get_board_square(&self, c: &Coord) -> (r: Cell)
        requires
            self.wf(),
            self.in_bounds(c.x as int, c.y as int),
        ensures
            r == self.cell_at(c.x as int, c.y as int),
    {
        proof {
            self.lemma_index_fits(c.x as int, c.y as int);
        }
        self.squares[c.y * self.width + c.x]
    }

    /// Writes `val` to the cell at `c`, which must be on the board; every
    /// other cell, and the dimensions, are untouched.
    #[inline]
    pub fn set_board_square(&mut self, c: &Coord, val: Cell)
        requires
            old(self).wf(),
            old(self).in_bounds(c.x as int, c.y as int),
        ensures
            final(self).wf(),
            final(self).width == old(self).width,
            final(self).height == old(self).height,
            final(self).cell_at(c.x as int, c.y as int) == val,
            forall|x: int, y: int|
                old(self).in_bounds(x, y) && !(x == c.x as int && y == c.y as int)
                    ==> #[trigger] final(self).cell_at(x, y) == old(self).cell_at(x, y),
    {
        proof {
            self.lemma_index_fits(c.x as int, c.y as int);
        }
        let i: usize = c.y * self.width + c.x;
        self.squares[i] = val;
        proof {
            assert forall|x: int, y: int|
                old(self).in_bounds(x, y) && !(x == c.x as int && y == c.y as int)
                    implies #[trigger] self.cell_at(x, y) == old(self).cell_at(x, y) by {
                lemma_row_major_bound(self.width as int, self.height as int, x, y);
                if y * self.width as int + x == c.y as int * self.width as int + c.x as int {
                    lemma_row_major_injective(self.width as int, x, y, c.x as int, c.y as int);
                }
            }
        }
    }

    /// Reads whether the cell at (x, y) is alive; a private helper for the
    /// neighbour scan.
    fn alive_at(&self, x: usize, y: usize) -> (r: bool)
        requires
            self.wf(),
            self.in_bounds(x as int, y as int),
        ensures
            r == (self.cell_at(x as int, y as int) == Cell::Alive),
    {
        proof {
            self.lemma_index_fits(x as int, y as int);
        }
        self.squares[y * self.width + x] == Cell::Alive
    }

    /// Counts the live cells adjacent to `c`: the up-to-eight neighbours
    /// inside the board, never the cell at `c` itself, and never a
    /// wrapped-around cell from the opposite edge.
    pub fn count_alive_neighbours(&self, c: &Coord) -> (n: u8)
        requires
            self.wf(),
            self.in_bounds(c.x as int, c.y as int),
        ensures
            n as int == live_neighbours(*self, c.x as int, c.y as int),
            n <= 8,
    {
        let x: usize = c.x;
        let y: usize = c.y;
        let mut count: u8 = 0;
        if x > 0 && y > 0 && self.alive_at(x - 1, y - 1) {
            count += 1;
        }
        if y > 0 && self.alive_at(x, y - 1) {
            count += 1;
        }
        if x + 1 < self.width && y > 0 && self.alive_at(x + 1, y - 1) {
            count += 1;
        }
        if x > 0 && self.alive_at(x - 1, y) {
            count += 1;
        }
        if x + 1 < self.width && self.alive_at(x + 1, y) {
            count += 1;
        }
        if x > 0 && y + 1 < self.height && self.alive_at(x - 1, y + 1) {
            count += 1;
        }
        if y + 1 < self.height && self.alive_at(x, y + 1) {
            count += 1;
        }
        if x + 1 < self.width && y + 1 < self.height && self.alive_at(x + 1, y + 1) {
            count += 1;
        }
        count
    }
}

} // verus!
