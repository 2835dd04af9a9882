use thud_and_tile::cell::Cell;
use thud_and_tile::config::{BOARD_HEIGHT, BOARD_WIDTH};
use thud_and_tile::core_logic::board_logic::find_connected_components;
use thud_and_tile::core_logic::erase_line_logic::{
    consume_chain_bonus_for_erase_line, count_solid_lines_from_bottom, determine_erase_line_count,
    remove_solid_line_from_bottom, should_start_erase_line_animation,
};
use thud_and_tile::core_logic::game_state::{CoreColorMaxChains, CoreGameState};
use thud_and_tile::game_color::GameColor;

fn create_test_board_with_bottom_solid_lines(solid_lines: usize) -> [[Cell; BOARD_WIDTH]; BOARD_HEIGHT] {
    let mut board = [[Cell::Empty; BOARD_WIDTH]; BOARD_HEIGHT];
    for y in (BOARD_HEIGHT - solid_lines)..BOARD_HEIGHT {
        for x in 0..BOARD_WIDTH {
            board[y][x] = Cell::Solid;
        }
    }
    board
}

#[test]
fn test_chain_bonus_consumption_for_erase_line() {
    let initial_chain_bonus = 15u32;
    let lines_to_erase = 3u32;
    let (remaining_bonus, consumed) = consume_chain_bonus_for_erase_line(initial_chain_bonus, lines_to_erase);
    assert_eq!(consumed, lines_to_erase);
    assert_eq!(remaining_bonus, initial_chain_bonus - lines_to_erase);
}

#[test]
fn test_determine_erase_line_count_logic() {
    assert_eq!(determine_erase_line_count(10, 5), 5);
    assert_eq!(determine_erase_line_count(3, 5), 3);
    assert_eq!(determine_erase_line_count(5, 5), 5);
    assert_eq!(determine_erase_line_count(0, 3), 0);
}

#[test]
fn test_solid_line_removal_integration() {
    let board = create_test_board_with_bottom_solid_lines(3);
    let initial_height = BOARD_HEIGHT;
    let (new_board, new_height, removed) = remove_solid_line_from_bottom(board, initial_height);
    assert!(removed);
    assert_eq!(new_height, initial_height);
    for x in 0..BOARD_WIDTH {
        assert!(matches!(new_board[BOARD_HEIGHT - 1][x], Cell::Solid));
        assert!(matches!(new_board[0][x], Cell::Empty));
    }
    let remaining_solid = count_solid_lines_from_bottom(new_board);
    assert_eq!(remaining_solid, 2);
}

#[test]
fn test_piece_lock_to_chain_bonus_increase() {
    let mut state = CoreGameState::new();
    state.board[19][4] = Cell::Occupied(GameColor::Cyan);
    state.board[19][5] = Cell::Occupied(GameColor::Cyan);
    state.board[19][6] = Cell::Occupied(GameColor::Cyan);
    state.board[19][7] = Cell::Occupied(GameColor::Cyan);
    state.board[19][8] = Cell::Occupied(GameColor::Cyan);

    let initial_chain_bonus = state.chain_bonus;
    let old_max_chains = state.max_chains.clone();

    let components = find_connected_components(state.board, &[]);
    state = state.apply_connected_components(components);
    state = state.update_max_chains_from_board();
    let total_increase = CoreColorMaxChains::calculate_chain_increases(&old_max_chains, &state.max_chains);
    state = state.add_chain_bonus(total_increase);

    for x in 4..=8 {
        assert!(matches!(state.board[19][x], Cell::Connected { color: GameColor::Cyan, count: 5 }));
    }
    if state.max_chains.cyan > old_max_chains.cyan {
        assert!(state.chain_bonus >= initial_chain_bonus);
    }
}

#[test]
fn test_enable_erase_line_triggers_animation() {
    let mut state = CoreGameState::new();
    state.enable_erase_line = true;
    state = state.add_chain_bonus(10);
    state.board = create_test_board_with_bottom_solid_lines(2);
    state.current_board_height = 20;

    let solid_count = count_solid_lines_from_bottom(state.board);
    let (should_start, target_lines) = should_start_erase_line_animation(
        state.enable_erase_line,
        state.chain_bonus,
        state.board,
        state.current_board_height,
    );

    assert!(should_start);
    assert_eq!(solid_count, 2);
    assert_eq!(target_lines.len(), 2);
}

#[test]
fn test_full_erase_line_animation_flow() {
    let mut state = CoreGameState::new();
    state.enable_erase_line = true;
    state = state.add_chain_bonus(5);
    state.board = create_test_board_with_bottom_solid_lines(3);
    state.current_board_height = 20;

    let initial_chain_bonus = state.chain_bonus;
    let initial_solid_count = count_solid_lines_from_bottom(state.board);

    let (should_start, target_lines) = should_start_erase_line_animation(
        state.enable_erase_line,
        state.chain_bonus,
        state.board,
        state.current_board_height,
    );
    assert!(should_start);
    assert_eq!(target_lines.len(), initial_solid_count);

    let lines_to_erase = determine_erase_line_count(state.chain_bonus, initial_solid_count);
    assert_eq!(lines_to_erase, 3);

    let (_remaining_bonus, consumed) = consume_chain_bonus_for_erase_line(state.chain_bonus, lines_to_erase as u32);
    state = state.consume_chain_bonus(consumed).0;
    assert_eq!(consumed, 3);
    assert_eq!(state.chain_bonus, initial_chain_bonus - 3);

    let mut current_board = state.board;
    let mut removed_count = 0;
    for _step in 0..lines_to_erase {
        let (new_board, _, removed) = remove_solid_line_from_bottom(current_board, BOARD_HEIGHT);
        if removed {
            current_board = new_board;
            removed_count += 1;
        } else {
            break;
        }
    }
    assert_eq!(removed_count, 3);

    let final_solid_count = count_solid_lines_from_bottom(current_board);
    assert_eq!(final_solid_count, 0);
    for x in 0..BOARD_WIDTH {
        assert!(matches!(current_board[BOARD_HEIGHT - 1][x], Cell::Empty));
    }
}

#[test]
fn test_erase_line_with_insufficient_chain_bonus() {
    let mut state = CoreGameState::new();
    state.enable_erase_line = true;
    state = state.add_chain_bonus(2);
    state.board = create_test_board_with_bottom_solid_lines(5);

    let solid_count = count_solid_lines_from_bottom(state.board);
    let lines_to_erase = determine_erase_line_count(state.chain_bonus, solid_count);
    assert_eq!(lines_to_erase, 2);

    let (_, consumed) = consume_chain_bonus_for_erase_line(state.chain_bonus, lines_to_erase as u32);
    assert_eq!(consumed, 2);
}

#[test]
fn test_erase_line_disabled_scenario() {
    let mut state = CoreGameState::new();
    state.enable_erase_line = false;
    state = state.add_chain_bonus(10);
    state.board = create_test_board_with_bottom_solid_lines(3);

    let (should_start, _target_lines) = should_start_erase_line_animation(
        state.enable_erase_line,
        state.chain_bonus,
        state.board,
        state.current_board_height,
    );

    assert!(!should_start);
}
