use thud_and_tile::board_logic;
use thud_and_tile::cell::Cell;
use thud_and_tile::config::{BOARD_HEIGHT, BOARD_WIDTH};
use thud_and_tile::game_color::GameColor;

#[test]
fn test_isolated_blocks_are_removed_on_non_bottom_clear() {
    let mut board = vec![vec![Cell::Empty; BOARD_WIDTH]; BOARD_HEIGHT];
    let cleared_line_y = BOARD_HEIGHT - 5;
    for x in 0..BOARD_WIDTH {
        board[cleared_line_y][x] = Cell::Occupied(GameColor::Blue);
    }
    board[cleared_line_y + 2][5] = Cell::Occupied(GameColor::Red);
    board[cleared_line_y + 3][2] = Cell::Occupied(GameColor::Green);
    board[cleared_line_y + 3][3] = Cell::Occupied(GameColor::Green);
    board_logic::remove_isolated_blocks(&mut board, cleared_line_y);
    assert_eq!(board[cleared_line_y + 2][5], Cell::Empty, "Isolated red block should be removed");
    assert_ne!(board[cleared_line_y + 3][2], Cell::Empty, "Connected green block should remain");
    assert_ne!(board[cleared_line_y + 3][3], Cell::Empty, "Connected green block should remain");
}

#[test]
fn test_counts_connected_blocks() {
    let mut board = vec![vec![Cell::Empty; BOARD_WIDTH]; BOARD_HEIGHT];
    let cleared_line_y = 15;
    let green_group = [
        (2, cleared_line_y + 2),
        (3, cleared_line_y + 2),
        (2, cleared_line_y + 3),
        (3, cleared_line_y + 3),
    ];
    for &(x, y) in &green_group {
        board[y][x] = Cell::Occupied(GameColor::Green);
    }
    let red_block = (7, cleared_line_y + 1);
    board[red_block.1][red_block.0] = Cell::Occupied(GameColor::Red);
    let mut results = board_logic::count_connected_blocks(&board, cleared_line_y);
    results.sort_by_key(|k| (k.0 .1, k.0 .0));
    let mut expected = vec![
        (red_block, 1),
        (green_group[0], 4),
        (green_group[1], 4),
        (green_group[2], 4),
        (green_group[3], 4),
    ];
    expected.sort_by_key(|k| (k.0 .1, k.0 .0));
    assert_eq!(results, expected);
}

#[test]
fn test_newly_landed_block_connects_to_existing_connected_block() {
    let mut board = vec![vec![Cell::Empty; BOARD_WIDTH]; BOARD_HEIGHT];
    let test_color = GameColor::Red;
    board[BOARD_HEIGHT - 1][0] = Cell::Connected { color: test_color, count: 1 };
    board[BOARD_HEIGHT - 1][1] = Cell::Occupied(test_color);
    board_logic::find_and_connect_adjacent_blocks(&mut board, &[]);
    assert_eq!(board[BOARD_HEIGHT - 1][1], Cell::Connected { color: test_color, count: 1 });
}

#[test]
fn test_calculate_chain_bonus_no_groups() {
    let board = vec![vec![Cell::Empty; BOARD_WIDTH]; BOARD_HEIGHT];
    let bonus = board_logic::calculate_chain_bonus(&board);
    assert_eq!(bonus, 0);
}

#[test]
fn test_calculate_chain_bonus_small_groups() {
    let mut board = vec![vec![Cell::Empty; BOARD_WIDTH]; BOARD_HEIGHT];
    for i in 0..9 {
        board[BOARD_HEIGHT - 1][i] = Cell::Connected { color: GameColor::Cyan, count: 9 };
    }
    let bonus = board_logic::calculate_chain_bonus(&board);
    assert_eq!(bonus, 0, "a group of nine gives no bonus");
}

#[test]
fn test_calculate_chain_bonus_exactly_10() {
    let mut board = vec![vec![Cell::Empty; BOARD_WIDTH]; BOARD_HEIGHT];
    for i in 0..10 {
        board[BOARD_HEIGHT - 1][i] = Cell::Occupied(GameColor::Cyan);
    }
    let bonus = board_logic::calculate_chain_bonus(&board);
    assert_eq!(bonus, 1);
}

#[test]
fn test_calculate_chain_bonus_multiple_groups() {
    let mut board = vec![vec![Cell::Empty; BOARD_WIDTH]; BOARD_HEIGHT];
    for i in 0..10 {
        board[BOARD_HEIGHT - 1][i] = Cell::Connected { color: GameColor::Cyan, count: 15 };
    }
    for i in 0..5 {
        board[BOARD_HEIGHT - 2][i] = Cell::Connected { color: GameColor::Cyan, count: 15 };
    }
    for i in 0..10 {
        board[BOARD_HEIGHT - 5][i] = Cell::Occupied(GameColor::Magenta);
    }
    for i in 0..10 {
        board[BOARD_HEIGHT - 6][i] = Cell::Occupied(GameColor::Magenta);
    }
    for i in 0..3 {
        board[BOARD_HEIGHT - 7][i] = Cell::Occupied(GameColor::Magenta);
    }
    let bonus = board_logic::calculate_chain_bonus(&board);
    assert_eq!(bonus, 3);
}

#[test]
fn test_calculate_chain_bonus_large_group() {
    let mut board = vec![vec![Cell::Empty; BOARD_WIDTH]; BOARD_HEIGHT];
    for y in 0..4 {
        for x in 0..10 {
            board[BOARD_HEIGHT - 1 - y][x] = Cell::Connected { color: GameColor::Yellow, count: 40 };
        }
    }
    for x in 0..5 {
        board[BOARD_HEIGHT - 5][x] = Cell::Connected { color: GameColor::Yellow, count: 45 };
    }
    let bonus = board_logic::calculate_chain_bonus(&board);
    assert_eq!(bonus, 4);
}

#[test]
fn lone_connected_block_stays_as_it_is() {
    let mut board = vec![vec![Cell::Empty; BOARD_WIDTH]; BOARD_HEIGHT];
    board[BOARD_HEIGHT - 1][4] = Cell::Occupied(GameColor::Blue);
    board_logic::find_and_connect_adjacent_blocks(&mut board, &[]);
    assert_eq!(board[BOARD_HEIGHT - 1][4], Cell::Occupied(GameColor::Blue));
}

#[test]
fn swapping_colours_keeps_the_counts() {
    let mut board = vec![vec![Cell::Empty; 10]; 20];
    board[19][0] = Cell::Occupied(GameColor::Cyan);
    board[19][1] = Cell::Occupied(GameColor::Cyan);
    board[18][1] = Cell::Occupied(GameColor::Cyan);
    board[19][2] = Cell::Occupied(GameColor::Magenta);
    board[18][2] = Cell::Occupied(GameColor::Magenta);
    let swap = |c: Cell| match c {
        Cell::Occupied(GameColor::Cyan) => Cell::Occupied(GameColor::Magenta),
        Cell::Occupied(GameColor::Magenta) => Cell::Occupied(GameColor::Cyan),
        other => other,
    };
    let swapped: Vec<Vec<Cell>> = board.iter().map(|row| row.iter().map(|c| swap(*c)).collect()).collect();
    let mut a = board_logic::count_connected_blocks(&board, 0);
    let mut b = board_logic::count_connected_blocks(&swapped, 0);
    a.sort();
    b.sort();
    assert_eq!(a, b);
    assert_eq!(a.len(), 5);
}
