use thud_and_tile::cell::Cell;
use thud_and_tile::config::{BOARD_HEIGHT, BOARD_WIDTH};
use thud_and_tile::core_logic::board_logic::FixedBoard;
use thud_and_tile::core_logic::erase_line_logic::{
    consume_chain_bonus_for_erase_line, count_solid_lines_from_bottom,
    process_erase_line_step, remove_solid_line_from_bottom, EraseLineAnimationState, EraseLineStepResult,
};
use thud_and_tile::game_color::GameColor;

fn board_with_solid_rows(from: usize) -> FixedBoard {
    let mut board = [[Cell::Empty; BOARD_WIDTH]; BOARD_HEIGHT];
    for y in from..BOARD_HEIGHT {
        for x in 0..BOARD_WIDTH {
            board[y][x] = Cell::Solid;
        }
    }
    board
}

#[test]
fn test_erase_line_animation_structure() {
    let animation = EraseLineAnimationState::new(vec![19, 18, 17], 0);
    assert_eq!(animation.target_lines, vec![19, 18, 17]);
    assert_eq!(animation.current_step, 0);
    assert_eq!(animation.last_update_ms, 0);
    assert_eq!(animation.chain_bonus_consumed, 0);
}

#[test]
fn test_erase_line_animation_step_processing() {
    let animation = EraseLineAnimationState::new(vec![19, 18, 17], 0);
    let (animation, _board, _height, result) =
        process_erase_line_step(animation, 120, board_with_solid_rows(17), 20);
    assert_eq!(animation.current_step, 1);
    assert_eq!(animation.chain_bonus_consumed, 1);
    assert!(matches!(result, EraseLineStepResult::Continue));
}

#[test]
fn test_erase_line_animation_completion() {
    let animation = EraseLineAnimationState::new(vec![19], 0);
    let (_animation, _board, _height, result) =
        process_erase_line_step(animation, 120, board_with_solid_rows(19), 20);
    assert!(matches!(result, EraseLineStepResult::Complete { lines_erased: 1 }));
}

#[test]
fn test_erase_line_animation_time_not_elapsed() {
    let animation = EraseLineAnimationState::new(vec![19, 18], 0);
    let (animation, _board, _height, result) =
        process_erase_line_step(animation, 60, board_with_solid_rows(18), 20);
    assert_eq!(animation.current_step, 0);
    assert_eq!(animation.chain_bonus_consumed, 0);
    assert!(matches!(result, EraseLineStepResult::Continue));
}

#[test]
fn test_chain_bonus_consumption_on_erase_line_completion() {
    let initial_chain_bonus = 5;
    let lines_erased = 3;
    let (remaining, consumed) = consume_chain_bonus_for_erase_line(initial_chain_bonus, lines_erased);
    assert_eq!(consumed, 3);
    assert_eq!(remaining, 2);
}

#[test]
fn test_chain_bonus_exhaustion_limits_consumption() {
    let initial_chain_bonus = 1;
    let lines_erased = 3;
    let (remaining, consumed) = consume_chain_bonus_for_erase_line(initial_chain_bonus, lines_erased);
    assert_eq!(consumed, 1);
    assert_eq!(remaining, 0);
}

#[test]
fn erase_line_tdd_tests_test_count_solid_lines_from_bottom() {
    let board = board_with_solid_rows(17);
    let solid_count = count_solid_lines_from_bottom(board);
    assert_eq!(solid_count, 3);
}

#[test]
fn test_partial_solid_lines_not_counted() {
    let mut board = [[Cell::Empty; BOARD_WIDTH]; BOARD_HEIGHT];
    for x in 0..5 {
        board[19][x] = Cell::Solid;
    }
    let solid_count = count_solid_lines_from_bottom(board);
    assert_eq!(solid_count, 0);
}

#[test]
fn test_mixed_color_lines_not_solid() {
    let mut board = [[Cell::Empty; BOARD_WIDTH]; BOARD_HEIGHT];
    for x in 0..9 {
        board[19][x] = Cell::Solid;
    }
    board[19][9] = Cell::Occupied(GameColor::Cyan);
    let solid_count = count_solid_lines_from_bottom(board);
    assert_eq!(solid_count, 0);
}

#[test]
fn test_remove_solid_line_adds_empty_row_on_top() {
    let mut board = board_with_solid_rows(19);
    let current_height = 20;
    board[0][0] = Cell::Occupied(GameColor::Cyan);
    let (board, _height, _removed) = remove_solid_line_from_bottom(board, current_height);
    assert_eq!(board[0][0], Cell::Empty);
    assert_eq!(board[1][0], Cell::Occupied(GameColor::Cyan));
}
