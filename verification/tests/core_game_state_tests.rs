use thud_and_tile::cell::Cell;
use thud_and_tile::config::{BOARD_HEIGHT, BOARD_WIDTH};
use thud_and_tile::core_logic::animation_logic::{create_erase_line_animation, AnimationType};
use thud_and_tile::core_logic::game_state::{CoreColorMaxChains, CoreGameEvent, CoreGameMode, CoreGameState};
use thud_and_tile::core_logic::input_handler::process_input;
use thud_and_tile::game_color::GameColor;
use thud_and_tile::game_input::GameInput;

#[test]
fn test_core_game_state_creation() {
    let state = CoreGameState::new();
    assert_eq!(state.game_mode, CoreGameMode::Title);
    assert_eq!(state.score, 0);
    assert!(!state.has_animations());
    assert_eq!(state.current_board_height, 0);
}

#[test]
fn test_animation_start() {
    let state = CoreGameState::new();
    let state = state.start_line_blink(vec![5, 10], 1000);
    assert!(state.has_animations());
    assert_eq!(state.animation_count(), 1);
    assert!(state.has_animation_type(AnimationType::LineBlink));
    assert!(!state.has_animation_type(AnimationType::PushDown));
}

#[test]
fn test_score_addition() {
    let state = CoreGameState::new();
    let state = state.add_score(1000);
    assert_eq!(state.score, 1000);
}

#[test]
fn test_chain_multiplier_update() {
    let mut state = CoreGameState::new();
    state = state.update_chain_multiplier(GameColor::Red, 5);
    assert_eq!(state.max_chains.get(GameColor::Red), 5);
    state = state.update_chain_multiplier(GameColor::Red, 3);
    assert_eq!(state.max_chains.get(GameColor::Red), 5);
    state = state.update_chain_multiplier(GameColor::DarkBlue, 9);
    assert_eq!(state.max_chains.get(GameColor::DarkBlue), 1);
}

#[test]
fn test_piece_spawning() {
    let state = CoreGameState::new();
    let state = state.spawn_piece();
    assert!(state.current_piece.is_some());
}

#[test]
fn test_render_info_generation() {
    let state = CoreGameState::new();
    let render_info = state.generate_render_info();
    assert_eq!(render_info.score, 0);
    assert_eq!(render_info.game_mode, 0);
    assert!(!render_info.has_animations);
    assert!(render_info.current_piece_blocks.is_empty());
}

#[test]
fn chain_increases_sum_colour_by_colour() {
    let old = CoreColorMaxChains::default();
    let mut new = CoreColorMaxChains::default();
    new.cyan = 4;
    new.red = 3;
    new.grey = 0;
    assert_eq!(CoreColorMaxChains::calculate_chain_increases(&old, &new), 5);
    let mut huge = CoreColorMaxChains::default();
    huge.cyan = u32::MAX;
    huge.magenta = u32::MAX;
    assert_eq!(CoreColorMaxChains::calculate_chain_increases(&old, &huge), u32::MAX);
}

#[test]
fn chain_bonus_is_added_and_consumed() {
    let state = CoreGameState::new().add_chain_bonus(4);
    let (state, consumed) = state.consume_chain_bonus(6);
    assert_eq!(consumed, 4);
    assert_eq!(state.chain_bonus, 0);
    let state = state.add_chain_bonus(u32::MAX).add_chain_bonus(5);
    assert_eq!(state.chain_bonus, u32::MAX);
}

#[test]
fn finished_erase_lines_are_paid_from_the_chain_bonus() {
    let mut state = CoreGameState::new().add_chain_bonus(3);
    let mut erase = create_erase_line_animation(vec![19, 18], 0);
    erase.current_step = 2;
    state.animations.push(erase);
    state.animations_count = 1;
    let state = state.start_line_blink(vec![4], 0);
    let result = state.update_with_time(1000);
    assert_eq!(result.new_state.chain_bonus, 1);
    assert_eq!(result.new_state.animation_count(), 0);
    assert_eq!(result.new_state.elapsed_time_ms, 1000);
    assert!(result.render_required);
    assert_eq!(
        result.events,
        vec![
            CoreGameEvent::AnimationCompleted { animation_type: AnimationType::LineBlink },
            CoreGameEvent::AnimationCompleted { animation_type: AnimationType::EraseLine },
        ]
    );
}

#[test]
fn clear_lines_drops_bottom_line_and_greys_others() {
    let mut state = CoreGameState::new();
    for x in 0..BOARD_WIDTH {
        state.board[19][x] = Cell::Occupied(GameColor::Cyan);
        state.board[17][x] = Cell::Occupied(GameColor::Magenta);
    }
    state.board[18][0] = Cell::Occupied(GameColor::Yellow);
    state.current_board_height = 20;
    let state = state.clear_lines(&[17, 19]);
    assert_eq!(state.lines_cleared, 1);
    for x in 0..BOARD_WIDTH {
        assert_eq!(state.board[0][x], Cell::Empty);
        assert_eq!(state.board[17][x], Cell::Occupied(GameColor::Grey));
        assert_eq!(state.board[18][x], Cell::Occupied(GameColor::Magenta));
    }
    assert_eq!(state.board[19][0], Cell::Occupied(GameColor::Yellow));
    assert_eq!(state.current_board_height, 20);
}

#[test]
fn max_chains_follow_connected_blocks_in_play_area() {
    let mut state = CoreGameState::new();
    state.board[3][2] = Cell::Connected { color: GameColor::Cyan, count: 7 };
    state.board[12][2] = Cell::Connected { color: GameColor::Magenta, count: 9 };
    state.current_board_height = 10;
    let state = state.update_max_chains_from_board();
    assert_eq!(state.max_chains.cyan, 7);
    assert_eq!(state.max_chains.magenta, 1);
}

#[test]
fn placing_a_piece_writes_its_blocks() {
    let mut state = CoreGameState::new();
    state = state.spawn_piece();
    let piece = state.current_piece.clone().unwrap();
    assert!(state.can_place_piece(&piece));
    let placed = state.place_piece(&piece);
    assert!(placed.current_piece.is_none());
    assert_eq!(placed.pieces_placed, 1);
    for ((x, y), color) in piece.iter_blocks() {
        assert_eq!(placed.board[y as usize][x as usize], Cell::Occupied(color));
    }
    assert!(placed.current_board_height > 0);
    assert!(!placed.can_place_piece(&piece));
}

#[test]
fn title_restart_starts_play_with_a_piece() {
    let state = CoreGameState::new();
    let result = process_input(state, GameInput::Restart, 0);
    assert_eq!(result.new_state.game_mode, CoreGameMode::Playing);
    assert!(result.new_state.current_piece.is_some());
    assert_eq!(result.events, vec![CoreGameEvent::GameModeChanged { new_mode: CoreGameMode::Playing }]);
}

#[test]
fn playing_rotation_changes_state() {
    let mut state = CoreGameState::new();
    state.game_mode = CoreGameMode::Playing;
    state = state.spawn_piece();
    let result = process_input(state, GameInput::RotateClockwise, 0);
    assert_eq!(result.new_state.current_piece.as_ref().unwrap().get_rotation_state(), 1);
    let result = process_input(result.new_state, GameInput::RotateCounterClockwise, 0);
    assert_eq!(result.new_state.current_piece.as_ref().unwrap().get_rotation_state(), 0);
}

#[test]
fn hard_drop_locks_the_piece_on_the_floor() {
    let mut state = CoreGameState::new();
    state.game_mode = CoreGameMode::Playing;
    state = state.spawn_piece();
    let result = process_input(state, GameInput::HardDrop, 0);
    assert!(result.input_consumed);
    assert_eq!(result.new_state.pieces_placed, 1);
    assert!(matches!(result.events[0], CoreGameEvent::PieceLocked { .. }));
    let occupied_bottom = (0..BOARD_WIDTH).filter(|&x| result.new_state.board[BOARD_HEIGHT - 1][x] != Cell::Empty).count();
    assert!(occupied_bottom > 0);
    assert!(result.new_state.current_piece.is_some());
}

#[test]
fn input_is_refused_during_animation() {
    let mut state = CoreGameState::new();
    state.game_mode = CoreGameMode::Playing;
    state = state.spawn_piece().start_line_blink(vec![19], 0);
    let result = process_input(state, GameInput::MoveLeft, 0);
    assert!(!result.input_consumed);
    assert!(!result.render_required);
    assert!(result.events.is_empty());
}

#[test]
fn game_over_restart_gives_a_new_game() {
    let mut state = CoreGameState::new();
    state.game_mode = CoreGameMode::GameOver;
    state.score = 77;
    let result = process_input(state, GameInput::Restart, 0);
    assert_eq!(result.new_state.game_mode, CoreGameMode::Title);
    assert_eq!(result.new_state.score, 0);
    assert!(result.input_consumed);
    assert_eq!(result.events.len(), 1);
}

#[test]
fn full_board_ends_the_game_on_lock() {
    let mut state = CoreGameState::new();
    state.game_mode = CoreGameMode::Playing;
    for y in 2..BOARD_HEIGHT {
        for x in 0..BOARD_WIDTH {
            if x != y % BOARD_WIDTH {
                state.board[y][x] = Cell::Occupied(GameColor::Cyan);
            }
        }
    }
    state.current_board_height = 20;
    state = state.spawn_piece();
    let result = process_input(state, GameInput::HardDrop, 0);
    assert_eq!(result.new_state.game_mode, CoreGameMode::GameOver);
    assert!(result.new_state.current_piece.is_none());
    assert!(result.events.contains(&CoreGameEvent::GameOver));
}
