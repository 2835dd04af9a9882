use thud_and_tile::cell::Cell;
use thud_and_tile::config::{BOARD_HEIGHT, BOARD_WIDTH};
use thud_and_tile::core_logic::board_logic::{
    analyze_lines, count_solid_lines_from_bottom, find_complete_lines, find_connected_components,
    find_isolated_blocks, FixedBoard, Point,
};
use thud_and_tile::game_color::GameColor;

fn create_test_board() -> FixedBoard {
    let mut board = [[Cell::Empty; BOARD_WIDTH]; BOARD_HEIGHT];
    board[BOARD_HEIGHT - 1][0] = Cell::Occupied(GameColor::Red);
    board[BOARD_HEIGHT - 1][1] = Cell::Occupied(GameColor::Red);
    board[BOARD_HEIGHT - 2][0] = Cell::Occupied(GameColor::Blue);
    board
}

#[test]
fn test_find_connected_components() {
    let board = create_test_board();
    let components = find_connected_components(board, &[]);
    assert!(components.iter().any(|c| c.color == GameColor::Red && c.size == 2));
    assert!(components.iter().any(|c| c.color == GameColor::Blue && c.size == 1));
}

#[test]
fn test_find_complete_lines() {
    let mut board = [[Cell::Empty; BOARD_WIDTH]; BOARD_HEIGHT];
    for x in 0..BOARD_WIDTH {
        board[BOARD_HEIGHT - 1][x] = Cell::Occupied(GameColor::Red);
    }
    let complete_lines = find_complete_lines(board, BOARD_HEIGHT);
    assert_eq!(complete_lines, vec![BOARD_HEIGHT - 1]);
}

#[test]
fn test_analyze_lines() {
    let current_height = 15;
    let lines = vec![10, 14];
    let analysis = analyze_lines(&lines, current_height);
    assert_eq!(analysis.bottom_lines, vec![14]);
    assert_eq!(analysis.non_bottom_lines, vec![10]);
}

#[test]
fn test_find_isolated_blocks() {
    let board = create_test_board();
    let isolated = find_isolated_blocks(board, 0);
    assert!(isolated.contains(&Point(0, BOARD_HEIGHT - 2)));
}

#[test]
fn board_logic_test_count_solid_lines_from_bottom() {
    let mut board = [[Cell::Empty; BOARD_WIDTH]; BOARD_HEIGHT];
    for x in 0..BOARD_WIDTH {
        board[BOARD_HEIGHT - 1][x] = Cell::Solid;
        board[BOARD_HEIGHT - 2][x] = Cell::Solid;
    }
    let count = count_solid_lines_from_bottom(board, BOARD_HEIGHT);
    assert_eq!(count, 2);
}

#[test]
fn components_list_each_group_once_in_scan_order() {
    let board = create_test_board();
    let components = find_connected_components(board, &[]);
    assert_eq!(components.len(), 2);
    assert_eq!(components[0].color, GameColor::Blue);
    assert_eq!(components[0].positions[0], Point(0, BOARD_HEIGHT - 2));
    assert_eq!(components[1].color, GameColor::Red);
    assert_eq!(components[1].size, 2);
}

#[test]
fn excluded_rows_are_left_out_of_components() {
    let board = create_test_board();
    let components = find_connected_components(board, &[BOARD_HEIGHT - 1]);
    assert_eq!(components.len(), 1);
    assert_eq!(components[0].color, GameColor::Blue);
}

#[test]
fn incomplete_line_is_not_complete() {
    let mut board = [[Cell::Empty; BOARD_WIDTH]; BOARD_HEIGHT];
    for x in 1..BOARD_WIDTH {
        board[BOARD_HEIGHT - 1][x] = Cell::Solid;
    }
    assert!(find_complete_lines(board, BOARD_HEIGHT).is_empty());
}
