//! Laws of the Life rule on clipped boards, stated and proved over the
//! same spec functions the executable contracts use.

use vstd::prelude::*;

use crate::board::Board;
use crate::board::Cell;
use crate::board::alive_weight;
use crate::board::lemma_row_major_split;
use crate::board::live_neighbours;
use crate::step::is_step_of;
use crate::step::next_cell;

verus! {

/// On a board whose every cell is dead, every position — corners and edge
/// midpoints included — has zero live neighbours.
pub proof fn lemma_all_dead_zero_neighbours(b: Board, x: int, y: int)
    requires
        b.all_dead(),
    ensures
        live_neighbours(b, x, y) == 0,
{
    assert(alive_weight(b, x - 1, y - 1) == 0);
    assert(alive_weight(b, x, y - 1) == 0);
    assert(alive_weight(b, x + 1, y - 1) == 0);
    assert(alive_weight(b, x - 1, y) == 0);
    assert(alive_weight(b, x + 1, y) == 0);
    assert(alive_weight(b, x - 1, y + 1) == 0);
    assert(alive_weight(b, x, y + 1) == 0);
    assert(alive_weight(b, x + 1, y + 1) == 0);
}

/// Self-exclusion: the neighbour count at (x, y) never reads the cell at
/// (x, y) itself. Two boards of the same dimensions that agree everywhere
/// except possibly at (x, y) have the same count there.
pub proof fn lemma_count_excludes_centre(b1: Board, b2: Board, x: int, y: int)
    requires
        b1.width == b2.width,
        b1.height == b2.height,
        forall|xx: int, yy: int|
            b1.in_bounds(xx, yy) && !(xx == x && yy == y)
                ==> #[trigger] b1.cell_at(xx, yy) == b2.cell_at(xx, yy),
    ensures
        live_neighbours(b1, x, y) == live_neighbours(b2, x, y),
{
    assert(alive_weight(b1, x - 1, y - 1) == alive_weight(b2, x - 1, y - 1));
    assert(alive_weight(b1, x, y - 1) == alive_weight(b2, x, y - 1));
    assert(alive_weight(b1, x + 1, y - 1) == alive_weight(b2, x + 1, y - 1));
    assert(alive_weight(b1, x - 1, y) == alive_weight(b2, x - 1, y));
    assert(alive_weight(b1, x + 1, y) == alive_weight(b2, x + 1, y));
    assert(alive_weight(b1, x - 1, y + 1) == alive_weight(b2, x - 1, y + 1));
    assert(alive_weight(b1, x, y + 1) == alive_weight(b2, x, y + 1));
    assert(alive_weight(b1, x + 1, y + 1) == alive_weight(b2, x + 1, y + 1));
}

/// A lone live cell has no live neighbours: on a board where every cell
/// other than (x, y) is dead, the count at (x, y) is zero, whatever the
/// cell at (x, y) holds.
pub proof fn lemma_lone_cell_zero_neighbours(b: Board, x: int, y: int)
    requires
        forall|xx: int, yy: int|
            b.in_bounds(xx, yy) && !(xx == x && yy == y)
                ==> #[trigger] b.cell_at(xx, yy) == Cell::Dead,
    ensures
        live_neighbours(b, x, y) == 0,
{
    assert(alive_weight(b, x - 1, y - 1) == 0);
    assert(alive_weight(b, x, y - 1) == 0);
    assert(alive_weight(b, x + 1, y - 1) == 0);
    assert(alive_weight(b, x - 1, y) == 0);
    assert(alive_weight(b, x + 1, y) == 0);
    assert(alive_weight(b, x - 1, y + 1) == 0);
    assert(alive_weight(b, x, y + 1) == 0);
    assert(alive_weight(b, x + 1, y + 1) == 0);
}

/// Stability of the empty board: one generation after a board whose every
/// cell is dead, every cell is still dead.
pub proof fn lemma_dead_board_stays_dead(b: Board, next: Board)
    requires
        b.all_dead(),
        is_step_of(next, b),
    ensures
        next.all_dead(),
{
    assert forall|x: int, y: int| next.in_bounds(x, y) implies #[trigger] next.cell_at(x, y)
        == Cell::Dead by {
        lemma_all_dead_zero_neighbours(b, x, y);
        assert(b.in_bounds(x, y));
        assert(b.cell_at(x, y) == Cell::Dead);
        assert(next.cell_at(x, y) == next_cell(b, x, y));
    }
}

/// Determinism: stepping is a function of the input board's contents
/// alone. Two input boards with equal dimensions and equal cell storage
/// step to boards with equal cell storage, position for position.
pub proof fn lemma_step_deterministic(b1: Board, b2: Board, n1: Board, n2: Board)
    requires
        b1.wf(),
        b1.width == b2.width,
        b1.height == b2.height,
        b1.squares@ == b2.squares@,
        is_step_of(n1, b1),
        is_step_of(n2, b2),
    ensures
        n1.squares@ == n2.squares@,
{
    let w: int = b1.width as int;
    let h: int = b1.height as int;
    assert(n1.squares@.len() == w * h);
    assert(n2.squares@.len() == w * h);
    assert forall|i: int| 0 <= i < n1.squares@.len() implies n1.squares@[i] == n2.squares@[i] by {
        assert(w > 0) by {
            if w <= 0 {
                assert(w * h <= 0) by (nonlinear_arith)
                    requires
                        w <= 0,
                        h >= 0,
                ;
            }
        }
        lemma_row_major_split(w, h, i);
        let x: int = i % w;
        let y: int = i / w;
        assert(b1.in_bounds(x, y));
        assert(n1.cell_at(x, y) == next_cell(b1, x, y));
        assert(n2.cell_at(x, y) == next_cell(b2, x, y));
        assert(next_cell(b1, x, y) == next_cell(b2, x, y));
        assert(n1.squares@[i] == n1.cell_at(x, y));
        assert(n2.squares@[i] == n2.cell_at(x, y));
    }
    assert(n1.squares@ =~= n2.squares@);
}

} // verus!
