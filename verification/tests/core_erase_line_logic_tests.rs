use thud_and_tile::cell::Cell;
use thud_and_tile::config::{BOARD_HEIGHT, BOARD_WIDTH};
use thud_and_tile::core_logic::board_logic::FixedBoard;
use thud_and_tile::core_logic::erase_line_logic::{
    consume_chain_bonus_for_erase_line, count_solid_lines_from_bottom, determine_erase_line_count,
    process_erase_line_step, remove_solid_line_from_bottom, should_start_erase_line_animation,
    EraseLineAnimationState, EraseLineStepResult,
};

fn create_test_board_with_solid_lines(solid_lines: usize) -> FixedBoard {
    let mut board = [[Cell::Empty; BOARD_WIDTH]; BOARD_HEIGHT];
    for y in (BOARD_HEIGHT - solid_lines)..BOARD_HEIGHT {
        for x in 0..BOARD_WIDTH {
            board[y][x] = Cell::Solid;
        }
    }
    board
}

#[test]
fn erase_line_logic_test_count_solid_lines_from_bottom() {
    let board = create_test_board_with_solid_lines(3);
    let count = count_solid_lines_from_bottom(board);
    assert_eq!(count, 3);

    let empty_board = [[Cell::Empty; BOARD_WIDTH]; BOARD_HEIGHT];
    let count = count_solid_lines_from_bottom(empty_board);
    assert_eq!(count, 0, "an empty board has no solid line");

    let mut board_one_solid = [[Cell::Empty; BOARD_WIDTH]; BOARD_HEIGHT];
    for x in 0..BOARD_WIDTH {
        board_one_solid[BOARD_HEIGHT - 1][x] = Cell::Solid;
    }
    let count = count_solid_lines_from_bottom(board_one_solid);
    assert_eq!(count, 1);

    let mut board_two_solid = [[Cell::Empty; BOARD_WIDTH]; BOARD_HEIGHT];
    for y in (BOARD_HEIGHT - 2)..BOARD_HEIGHT {
        for x in 0..BOARD_WIDTH {
            board_two_solid[y][x] = Cell::Solid;
        }
    }
    let count = count_solid_lines_from_bottom(board_two_solid);
    assert_eq!(count, 2);

    let mut board_non_continuous = [[Cell::Empty; BOARD_WIDTH]; BOARD_HEIGHT];
    for x in 0..BOARD_WIDTH {
        board_non_continuous[BOARD_HEIGHT - 1][x] = Cell::Solid;
    }
    for x in 0..BOARD_WIDTH {
        board_non_continuous[BOARD_HEIGHT - 3][x] = Cell::Solid;
    }
    let count = count_solid_lines_from_bottom(board_non_continuous);
    assert_eq!(count, 1);

    let mut board_incomplete = [[Cell::Empty; BOARD_WIDTH]; BOARD_HEIGHT];
    for x in 1..BOARD_WIDTH {
        board_incomplete[BOARD_HEIGHT - 1][x] = Cell::Solid;
    }
    let count = count_solid_lines_from_bottom(board_incomplete);
    assert_eq!(count, 0);
}

#[test]
fn test_determine_erase_line_count() {
    assert_eq!(determine_erase_line_count(5, 3), 3);
    assert_eq!(determine_erase_line_count(2, 5), 2);
    assert_eq!(determine_erase_line_count(0, 3), 0);
}

#[test]
fn test_consume_chain_bonus_for_erase_line() {
    let (new_bonus, consumed) = consume_chain_bonus_for_erase_line(10, 3);
    assert_eq!(new_bonus, 7);
    assert_eq!(consumed, 3);

    let (new_bonus, consumed) = consume_chain_bonus_for_erase_line(2, 5);
    assert_eq!(new_bonus, 0);
    assert_eq!(consumed, 2);
}

#[test]
fn erase_line_logic_test_remove_solid_line_from_bottom() {
    let empty_board = [[Cell::Empty; BOARD_WIDTH]; BOARD_HEIGHT];
    let initial_height = 5;
    let (result_board, result_height, success) = remove_solid_line_from_bottom(empty_board, initial_height);
    assert!(!success);
    assert_eq!(result_height, initial_height);
    for y in 0..BOARD_HEIGHT {
        for x in 0..BOARD_WIDTH {
            assert_eq!(result_board[y][x], Cell::Empty);
        }
    }

    let mut board_with_solid = [[Cell::Empty; BOARD_WIDTH]; BOARD_HEIGHT];
    for x in 0..BOARD_WIDTH {
        board_with_solid[BOARD_HEIGHT - 1][x] = Cell::Solid;
    }
    let initial_height = 10;
    let solid_count_before = count_solid_lines_from_bottom(board_with_solid);
    assert_eq!(solid_count_before, 1);
    let (result_board, result_height, success) = remove_solid_line_from_bottom(board_with_solid, initial_height);
    assert!(success);
    assert_eq!(result_height, initial_height + 1);
    let solid_count_after = count_solid_lines_from_bottom(result_board);
    assert_eq!(solid_count_after, 0);
}

#[test]
fn test_should_start_erase_line_animation() {
    let board = create_test_board_with_solid_lines(3);
    let (should_start, _) = should_start_erase_line_animation(false, 5, board, BOARD_HEIGHT);
    assert!(!should_start);
    let (should_start, target_lines) = should_start_erase_line_animation(true, 2, board, BOARD_HEIGHT);
    assert!(should_start);
    assert_eq!(target_lines.len(), 2);
}

#[test]
fn test_erase_line_animation_state() {
    let target_lines = vec![19, 18, 17];
    let state = EraseLineAnimationState::new(target_lines.clone(), 1000);
    assert_eq!(state.target_lines, target_lines);
    assert_eq!(state.current_step, 0);
    assert_eq!(state.last_update_ms, 1000);
    assert!(!state.is_completed);
}

#[test]
fn erase_targets_are_listed_upwards_from_the_area_bottom() {
    let board = create_test_board_with_solid_lines(3);
    let (start, targets) = should_start_erase_line_animation(true, 5, board, BOARD_HEIGHT);
    assert!(start);
    assert_eq!(targets, vec![19, 18, 17]);
    let (start, targets) = should_start_erase_line_animation(true, 0, board, BOARD_HEIGHT);
    assert!(!start);
    assert!(targets.is_empty());
}

#[test]
fn erase_step_waits_then_removes_and_completes() {
    let board = create_test_board_with_solid_lines(2);
    let state = EraseLineAnimationState::new(vec![19, 18], 0);
    let (state, board, height, result) = process_erase_line_step(state, 100, board, 10);
    assert_eq!(result, EraseLineStepResult::Continue);
    assert_eq!(state.current_step, 0);
    assert_eq!(height, 10);
    let (state, board, height, result) = process_erase_line_step(state, 120, board, height);
    assert_eq!(result, EraseLineStepResult::Continue);
    assert_eq!(state.current_step, 1);
    assert_eq!(state.chain_bonus_consumed, 1);
    assert_eq!(height, 11);
    let (state, board, height, result) = process_erase_line_step(state, 240, board, height);
    assert_eq!(result, EraseLineStepResult::Complete { lines_erased: 2 });
    assert!(state.is_completed);
    assert_eq!(height, 12);
    assert_eq!(count_solid_lines_from_bottom(board), 0);
}

#[test]
fn erase_step_stops_when_no_solid_line_is_left() {
    let board = [[Cell::Empty; BOARD_WIDTH]; BOARD_HEIGHT];
    let state = EraseLineAnimationState::new(vec![19, 18], 0);
    let (state, _, height, result) = process_erase_line_step(state, 500, board, 4);
    assert_eq!(result, EraseLineStepResult::Complete { lines_erased: 0 });
    assert!(state.is_completed);
    assert_eq!(height, 4);
}
