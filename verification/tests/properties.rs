use life_lib::Board;
use life_lib::Cell;
use life_lib::Coord;
use life_lib::game_of_life_step;
use life_lib::set_many;

fn alive_count(board: &Board) -> usize {
    let mut count: usize = 0;
    for y in 0..board.height {
        for x in 0..board.width {
            if board.get_board_square(&Coord::new(x, y)) == Cell::Alive {
                count += 1;
            }
        }
    }
    count
}

#[test]
fn coord_new_keeps_fields() {
    let c = Coord::new(3, 4);
    assert_eq!(c.x, 3);
    assert_eq!(c.y, 4);
}

#[test]
fn fresh_board_is_all_dead() {
    let board = Board::new(5, 7);
    assert_eq!(board.width, 5);
    assert_eq!(board.height, 7);
    assert_eq!(board.squares.len(), 35);
    for y in 0..7 {
        for x in 0..5 {
            assert_eq!(board.get_board_square(&Coord::new(x, y)), Cell::Dead);
        }
    }
}

#[test]
fn get_reads_back_what_set_wrote() {
    let mut board = Board::new(4, 4);
    board.set_board_square(&Coord::new(2, 3), Cell::Alive);
    assert_eq!(board.get_board_square(&Coord::new(2, 3)), Cell::Alive);
    assert_eq!(alive_count(&board), 1);
    board.set_board_square(&Coord::new(2, 3), Cell::Dead);
    assert_eq!(board.get_board_square(&Coord::new(2, 3)), Cell::Dead);
    assert_eq!(alive_count(&board), 0);
}

#[test]
fn edge_midpoints_of_dead_board_count_zero() {
    let board = Board::new(8, 8);
    assert_eq!(board.count_alive_neighbours(&Coord::new(4, 0)), 0);
    assert_eq!(board.count_alive_neighbours(&Coord::new(4, 7)), 0);
    assert_eq!(board.count_alive_neighbours(&Coord::new(0, 4)), 0);
    assert_eq!(board.count_alive_neighbours(&Coord::new(7, 4)), 0);
}

#[test]
fn diagonal_neighbour_counts_one() {
    let mut board = Board::new(8, 8);
    board.set_board_square(&Coord::new(3, 3), Cell::Alive);
    assert_eq!(board.count_alive_neighbours(&Coord::new(2, 2)), 1);
    assert_eq!(board.count_alive_neighbours(&Coord::new(4, 4)), 1);
    assert_eq!(board.count_alive_neighbours(&Coord::new(4, 2)), 1);
    assert_eq!(board.count_alive_neighbours(&Coord::new(2, 4)), 1);
}

#[test]
fn full_block_centre_counts_eight() {
    let mut board = Board::new(3, 3);
    for y in 0..3 {
        for x in 0..3 {
            board.set_board_square(&Coord::new(x, y), Cell::Alive);
        }
    }
    assert_eq!(board.count_alive_neighbours(&Coord::new(1, 1)), 8);
    assert_eq!(board.count_alive_neighbours(&Coord::new(0, 0)), 3);
    assert_eq!(board.count_alive_neighbours(&Coord::new(1, 0)), 5);
}

#[test]
fn birth_needs_exactly_three_neighbours() {
    let mut board = Board::new(5, 5);
    let mut coords: Vec<Coord> = Vec::new();
    coords.push(Coord::new(1, 1));
    coords.push(Coord::new(2, 1));
    coords.push(Coord::new(3, 1));
    set_many(&mut board, &coords, Cell::Alive);
    let mut next = Board::new(5, 5);
    game_of_life_step(&board, &mut next);
    // The dead cells above and below the middle of the row see three live
    // cells and are born; the dead cells beside the ends see only one.
    assert_eq!(next.get_board_square(&Coord::new(2, 0)), Cell::Alive);
    assert_eq!(next.get_board_square(&Coord::new(2, 2)), Cell::Alive);
    assert_eq!(next.get_board_square(&Coord::new(0, 1)), Cell::Dead);
    assert_eq!(next.get_board_square(&Coord::new(4, 1)), Cell::Dead);
}

#[test]
fn lone_pair_dies_of_underpopulation() {
    let mut board = Board::new(4, 4);
    board.set_board_square(&Coord::new(0, 0), Cell::Alive);
    board.set_board_square(&Coord::new(0, 1), Cell::Alive);
    let mut next = Board::new(4, 4);
    game_of_life_step(&board, &mut next);
    assert_eq!(alive_count(&next), 0);
}

#[test]
fn crowded_centre_dies_of_overpopulation() {
    let mut board = Board::new(5, 5);
    let mut coords: Vec<Coord> = Vec::new();
    coords.push(Coord::new(2, 2));
    coords.push(Coord::new(1, 2));
    coords.push(Coord::new(3, 2));
    coords.push(Coord::new(2, 1));
    coords.push(Coord::new(2, 3));
    set_many(&mut board, &coords, Cell::Alive);
    assert_eq!(board.count_alive_neighbours(&Coord::new(2, 2)), 4);
    let mut next = Board::new(5, 5);
    game_of_life_step(&board, &mut next);
    assert_eq!(next.get_board_square(&Coord::new(2, 2)), Cell::Dead);
}

#[test]
fn step_is_deterministic() {
    let mut board = Board::new(8, 8);
    board.set_board_square(&Coord::new(3, 5), Cell::Alive);
    board.set_board_square(&Coord::new(3, 6), Cell::Alive);
    board.set_board_square(&Coord::new(3, 7), Cell::Alive);

    // The prior contents of the output buffer are irrelevant: seed one of
    // the two buffers with stale live cells before stepping into it.
    let mut next_a = Board::new(8, 8);
    let mut next_b = Board::new(8, 8);
    next_b.set_board_square(&Coord::new(0, 0), Cell::Alive);
    next_b.set_board_square(&Coord::new(7, 7), Cell::Alive);

    game_of_life_step(&board, &mut next_a);
    game_of_life_step(&board, &mut next_b);
    assert_eq!(next_a.squares, next_b.squares);
}

#[test]
fn one_by_one_board_has_no_neighbours_and_dies() {
    let mut board = Board::new(1, 1);
    board.set_board_square(&Coord::new(0, 0), Cell::Alive);
    assert_eq!(board.count_alive_neighbours(&Coord::new(0, 0)), 0);
    let mut next = Board::new(1, 1);
    game_of_life_step(&board, &mut next);
    assert_eq!(next.get_board_square(&Coord::new(0, 0)), Cell::Dead);
}

#[test]
fn zero_sized_board_is_valid_and_step_is_noop() {
    let board = Board::new(0, 0);
    assert_eq!(board.squares.len(), 0);
    let mut next = board.clone();
    game_of_life_step(&board, &mut next);
    assert_eq!(board.squares, next.squares);

    let empty_row = Board::new(4, 0);
    assert_eq!(empty_row.squares.len(), 0);
    let mut next_row = empty_row.clone();
    game_of_life_step(&empty_row, &mut next_row);
    assert_eq!(empty_row.squares, next_row.squares);
}

#[test]
fn set_many_writes_all_listed_cells() {
    let mut board = Board::new(6, 6);
    let mut coords: Vec<Coord> = Vec::new();
    coords.push(Coord::new(0, 0));
    coords.push(Coord::new(5, 5));
    coords.push(Coord::new(2, 4));
    set_many(&mut board, &coords, Cell::Alive);
    assert_eq!(board.get_board_square(&Coord::new(0, 0)), Cell::Alive);
    assert_eq!(board.get_board_square(&Coord::new(5, 5)), Cell::Alive);
    assert_eq!(board.get_board_square(&Coord::new(2, 4)), Cell::Alive);
    assert_eq!(alive_count(&board), 3);
}

#[test]
fn set_many_duplicates_are_harmless() {
    let mut board = Board::new(6, 6);
    let mut coords: Vec<Coord> = Vec::new();
    coords.push(Coord::new(1, 2));
    coords.push(Coord::new(1, 2));
    coords.push(Coord::new(1, 2));
    set_many(&mut board, &coords, Cell::Alive);
    assert_eq!(board.get_board_square(&Coord::new(1, 2)), Cell::Alive);
    assert_eq!(alive_count(&board), 1);
}

#[test]
fn large_board_converges_to_a_stable_state() {
    let mut cur = Board::new(1024, 1024);
    let mut coords: Vec<Coord> = Vec::new();
    for x in 300..304 {
        coords.push(Coord::new(x, 256));
        coords.push(Coord::new(x, 768));
    }
    set_many(&mut cur, &coords, Cell::Alive);

    let mut converged = false;
    for _ in 0..16 {
        let mut next = cur.clone();
        game_of_life_step(&cur, &mut next);
        let stable = next.squares == cur.squares;
        cur = next;
        if stable {
            converged = true;
            break;
        }
    }
    // Each row of four live cells settles into a beehive, a still life of
    // six cells, so the board reaches a stable, non-empty state.
    assert!(converged);
    assert_eq!(alive_count(&cur), 12);
}
