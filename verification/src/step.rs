//! One generation of the Life rule: a pure transformation that reads one
//! board and overwrites every cell of a second board of the same
//! dimensions, plus a bulk seeding helper.

use vstd::prelude::*;

use crate::board::Board;
use crate::board::Cell;
use crate::board::Coord;
use crate::board::live_neighbours;

verus! {

/// The state position (x, y) takes in the next generation: a live cell
/// survives with exactly 2 or 3 live neighbours, a dead cell is born with
/// exactly 3, and every other cell is dead.
pub open spec fn next_cell(b: Board, x: int, y: int) -> Cell {
    if b.cell_at(x, y) == Cell::Alive {
        if live_neighbours(b, x, y) == 2 || live_neighbours(b, x, y) == 3 {
            Cell::Alive
        } else {
            Cell::Dead
        }
    } else {
        if live_neighbours(b, x, y) == 3 {
            Cell::Alive
        } else {
            Cell::Dead
        }
    }
}

/// `next` is exactly one generation after `b`: same dimensions, and every
/// cell of `next` is the Life rule applied to `b` at that position.
pub open spec fn is_step_of(next: Board, b: Board) -> bool {
    &&& next.width == b.width
    &&& next.height == b.height
    &&& next.wf()
    &&& forall|x: int, y: int|
        b.in_bounds(x, y) ==> #[trigger] next.cell_at(x, y) == next_cell(b, x, y)
}

/// Position (x, y) occurs in `coords`.
pub open spec fn hits(coords: Seq<Coord>, x: int, y: int) -> bool {
    exists|i: int|
        #![trigger coords[i]]
        0 <= i < coords.len() && coords[i].x as int == x && coords[i].y as int == y
}

/// Every coordinate of `coords` lies on board `b`.
pub open spec fn all_in_bounds(b: Board, coords: Seq<Coord>) -> bool {
    forall|i: int|
        #![trigger coords[i]]
        0 <= i < coords.len() ==> b.in_bounds(coords[i].x as int, coords[i].y as int)
}

/// Computes one generation of the Life rule from `b` into `next_board`,
/// overwriting every cell of `next_board` and leaving `b` untouched. The
/// two boards must have the same dimensions.
pub fn game_of_life_step(b: &Board, next_board: &mut Board)
    requires
        b.wf(),
        old(next_board).wf(),
        b.width == old(next_board).width,
        b.height == old(next_board).height,
    ensures
        is_step_of(*final(next_board), *b),
{
    let mut x: usize = 0;
    while x < b.width
        invariant
            x <= b.width,
            b.wf(),
            next_board.wf(),
            next_board.width == b.width,
            next_board.height == b.height,
            forall|xx: int, yy: int|
                0 <= xx < x as int && 0 <= yy < b.height as int
                    ==> #[trigger] next_board.cell_at(xx, yy) == next_cell(*b, xx, yy),
        decreases b.width - x,
    {
        let mut y: usize = 0;
        while y < b.height
            invariant
                x < b.width,
                y <= b.height,
                b.wf(),
                next_board.wf(),
                next_board.width == b.width,
                next_board.height == b.height,
                forall|xx: int, yy: int|
                    0 <= xx < x as int && 0 <= yy < b.height as int
                        ==> #[trigger] next_board.cell_at(xx, yy) == next_cell(*b, xx, yy),
                forall|yy: int|
                    0 <= yy < y as int
                        ==> #[trigger] next_board.cell_at(x as int, yy) == next_cell(*b, x as int, yy),
            decreases b.height - y,
        {
            let coord = Coord { x, y };
            let alive_neighbours: u8 = b.count_alive_neighbours(&coord);
            if b.get_board_square(&coord) == Cell::Alive {
                next_board.set_board_square(
                    &coord,
                    if alive_neighbours == 2 || alive_neighbours == 3 {
                        Cell::Alive
                    } else {
                        Cell::Dead
                    },
                );
            } else {
                next_board.set_board_square(
                    &coord,
                    if alive_neighbours == 3 {
                        Cell::Alive
                    } else {
                        Cell::Dead
                    },
                );
            }
            y += 1;
        }
        x += 1;
    }
}

/// Sets every position listed in `coords` to `val`, leaving every other
/// cell and the dimensions untouched. Duplicate positions are harmless:
/// each listed position simply reads `val` afterwards.
pub fn set_many(board: &mut Board, coords: &Vec<Coord>, val: Cell)
    requires
        old(board).wf(),
        all_in_bounds(*old(board), coords@),
    ensures
        final(board).wf(),
        final(board).width == old(board).width,
        final(board).height == old(board).height,
        forall|i: int|
            #![trigger coords@[i]]
            0 <= i < coords@.len()
                ==> final(board).cell_at(coords@[i].x as int, coords@[i].y as int) == val,
        forall|x: int, y: int|
            old(board).in_bounds(x, y) && !hits(coords@, x, y)
                ==> #[trigger] final(board).cell_at(x, y) == old(board).cell_at(x, y),
{
    let mut k: usize = 0;
    while k < coords.len()
        invariant
            k <= coords@.len(),
            board.wf(),
            board.width == old(board).width,
            board.height == old(board).height,
            all_in_bounds(*old(board), coords@),
            forall|i: int|
                #![trigger coords@[i]]
                0 <= i < k as int
                    ==> board.cell_at(coords@[i].x as int, coords@[i].y as int) == val,
            forall|x: int, y: int|
                old(board).in_bounds(x, y) && !hits(coords@, x, y)
                    ==> #[trigger] board.cell_at(x, y) == old(board).cell_at(x, y),
        decreases coords@.len() - k,
    {
        let c = coords[k];
        board.set_board_square(&c, val);
        proof {
            assert forall|x: int, y: int|
                old(board).in_bounds(x, y) && !hits(coords@, x, y)
                    implies #[trigger] board.cell_at(x, y) == old(board).cell_at(x, y) by {
                assert(coords@[k as int] == c);
                if x == c.x as int && y == c.y as int {
                    assert(hits(coords@, x, y));
                }
            }
        }
        k += 1;
    }
}

} // verus!
