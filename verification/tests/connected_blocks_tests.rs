use thud_and_tile::cell::Cell;
use thud_and_tile::config::{BOARD_HEIGHT, BOARD_WIDTH};
use thud_and_tile::core_logic::board_logic::{apply_connected_components, find_connected_components};
use thud_and_tile::core_logic::game_state::CoreGameState;
use thud_and_tile::game_color::GameColor;

fn create_empty_board() -> [[Cell; BOARD_WIDTH]; BOARD_HEIGHT] {
    [[Cell::Empty; BOARD_WIDTH]; BOARD_HEIGHT]
}

#[test]
fn test_single_block_remains_occupied() {
    let mut board = create_empty_board();
    board[19][5] = Cell::Occupied(GameColor::Cyan);
    let components = find_connected_components(board, &[]);
    let result_board = apply_connected_components(board, &components);
    assert!(matches!(result_board[19][5], Cell::Connected { color: GameColor::Cyan, count: 1 }));
}

#[test]
fn test_horizontal_adjacent_blocks_become_connected() {
    let mut board = create_empty_board();
    board[19][5] = Cell::Occupied(GameColor::Cyan);
    board[19][6] = Cell::Occupied(GameColor::Cyan);
    board[19][7] = Cell::Occupied(GameColor::Cyan);
    let components = find_connected_components(board, &[]);
    assert_eq!(components.len(), 1);
    assert_eq!(components[0].size, 3);
    assert_eq!(components[0].color, GameColor::Cyan);
    let result_board = apply_connected_components(board, &components);
    assert!(matches!(result_board[19][5], Cell::Connected { color: GameColor::Cyan, .. }));
    assert!(matches!(result_board[19][6], Cell::Connected { color: GameColor::Cyan, .. }));
    assert!(matches!(result_board[19][7], Cell::Connected { color: GameColor::Cyan, .. }));
}

#[test]
fn test_vertical_adjacent_blocks_become_connected() {
    let mut board = create_empty_board();
    board[17][5] = Cell::Occupied(GameColor::Magenta);
    board[18][5] = Cell::Occupied(GameColor::Magenta);
    board[19][5] = Cell::Occupied(GameColor::Magenta);
    let components = find_connected_components(board, &[]);
    assert_eq!(components.len(), 1);
    assert_eq!(components[0].size, 3);
    assert_eq!(components[0].color, GameColor::Magenta);
    let result_board = apply_connected_components(board, &components);
    assert!(matches!(result_board[17][5], Cell::Connected { color: GameColor::Magenta, .. }));
    assert!(matches!(result_board[18][5], Cell::Connected { color: GameColor::Magenta, .. }));
    assert!(matches!(result_board[19][5], Cell::Connected { color: GameColor::Magenta, .. }));
}

#[test]
fn test_different_colors_not_connected() {
    let mut board = create_empty_board();
    board[19][5] = Cell::Occupied(GameColor::Cyan);
    board[19][6] = Cell::Occupied(GameColor::Magenta);
    let components = find_connected_components(board, &[]);
    assert_eq!(components.len(), 2);
    for component in &components {
        assert_eq!(component.size, 1);
    }
}

#[test]
fn test_l_shaped_connected_blocks() {
    let mut board = create_empty_board();
    board[18][5] = Cell::Occupied(GameColor::Yellow);
    board[19][5] = Cell::Occupied(GameColor::Yellow);
    board[19][6] = Cell::Occupied(GameColor::Yellow);
    board[19][7] = Cell::Occupied(GameColor::Yellow);
    let components = find_connected_components(board, &[]);
    assert_eq!(components.len(), 1);
    assert_eq!(components[0].size, 4);
    assert_eq!(components[0].color, GameColor::Yellow);
}

#[test]
fn test_exclude_lines_are_ignored() {
    let mut board = create_empty_board();
    board[19][5] = Cell::Occupied(GameColor::Cyan);
    board[19][6] = Cell::Occupied(GameColor::Cyan);
    let components = find_connected_components(board, &[19]);
    assert_eq!(components.len(), 0);
}

#[test]
fn state_applies_components_with_their_sizes() {
    let mut state = CoreGameState::new();
    state.board[19][5] = Cell::Occupied(GameColor::Cyan);
    state.board[19][6] = Cell::Occupied(GameColor::Cyan);
    state.board[18][5] = Cell::Occupied(GameColor::Magenta);
    let components = find_connected_components(state.board, &[]);
    let state = state.apply_connected_components(components);
    assert_eq!(state.board[19][5], Cell::Connected { color: GameColor::Cyan, count: 2 });
    assert_eq!(state.board[19][6], Cell::Connected { color: GameColor::Cyan, count: 2 });
    assert_eq!(state.board[18][5], Cell::Connected { color: GameColor::Magenta, count: 1 });
}
