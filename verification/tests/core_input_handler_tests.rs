use thud_and_tile::core_logic::game_state::{CoreGameMode, CoreGameState};
use thud_and_tile::core_logic::input_handler::process_input;
use thud_and_tile::game_input::GameInput;
use thud_and_tile::tetromino::Tetromino;

#[test]
fn test_title_input_start() {
    let state = CoreGameState::new();
    assert_eq!(state.game_mode, CoreGameMode::Title);

    let result = process_input(state, GameInput::Restart, 0);

    assert_eq!(result.new_state.game_mode, CoreGameMode::Playing);
    assert!(result.input_consumed);
    assert!(result.render_required);
    assert!(result.events.len() > 0);
}

#[test]
fn test_playing_input_movement() {
    let mut state = CoreGameState::new();
    state.game_mode = CoreGameMode::Playing;
    state = state.spawn_piece();

    let original_piece = state.current_piece.as_ref().unwrap().clone();
    let original_first_block = original_piece.iter_blocks()[0];

    let result = process_input(state, GameInput::MoveLeft, 0);

    let new_piece = result.new_state.current_piece.as_ref().unwrap();
    let new_first_block = new_piece.iter_blocks()[0];
    assert_eq!(new_first_block.0 .0, original_first_block.0 .0 - 1);
    assert!(result.input_consumed);
    assert!(result.render_required);
}

#[test]
fn test_playing_input_rotation_clockwise() {
    let mut state = CoreGameState::new();
    state.game_mode = CoreGameMode::Playing;
    state = state.spawn_piece();

    let original_piece = state.current_piece.as_ref().unwrap().clone();

    let result = process_input(state, GameInput::RotateClockwise, 0);

    let new_piece = result.new_state.current_piece.as_ref().unwrap();
    assert_ne!(new_piece.get_rotation_state(), original_piece.get_rotation_state());
    assert!(result.input_consumed);
    assert!(result.render_required);
}

#[test]
fn test_playing_input_rotation_counter_clockwise() {
    let mut state = CoreGameState::new();
    state.game_mode = CoreGameMode::Playing;
    state = state.spawn_piece();

    let original_piece = state.current_piece.as_ref().unwrap().clone();

    let result = process_input(state, GameInput::RotateCounterClockwise, 0);

    let new_piece = result.new_state.current_piece.as_ref().unwrap();
    assert_ne!(new_piece.get_rotation_state(), original_piece.get_rotation_state());
    assert!(result.input_consumed);
    assert!(result.render_required);
}

#[test]
fn test_game_over_input_restart() {
    let mut state = CoreGameState::new();
    state.game_mode = CoreGameMode::GameOver;

    let result = process_input(state, GameInput::Restart, 0);

    assert_eq!(result.new_state.game_mode, CoreGameMode::Title);
    assert!(result.input_consumed);
    assert!(result.render_required);
    assert_eq!(result.events.len(), 1);
}

#[test]
fn test_title_input_toggle_erase_line() {
    let mut state = CoreGameState::new();
    state.game_mode = CoreGameMode::Title;
    assert!(!state.enable_erase_line);

    let result = process_input(state, GameInput::ToggleEraseLine, 0);

    assert!(result.input_consumed);
    assert!(result.render_required);
    assert_eq!(result.new_state.game_mode, CoreGameMode::Title);
    assert!(result.new_state.enable_erase_line);

    let result2 = process_input(result.new_state, GameInput::ToggleEraseLine, 0);
    assert!(!result2.new_state.enable_erase_line);
}

#[test]
fn test_playing_input_pause() {
    let mut state = CoreGameState::new();
    state.game_mode = CoreGameMode::Playing;
    state.current_piece = Some(Tetromino::new_random(&mut state.bag));

    let result = process_input(state, GameInput::Pause, 0);

    assert!(result.input_consumed);
    assert!(result.render_required);
    assert_eq!(result.new_state.game_mode, CoreGameMode::Title);
    assert_eq!(result.events.len(), 1);
}

#[test]
fn test_complete_input_coverage() {
    let inputs = [
        GameInput::MoveLeft,
        GameInput::MoveRight,
        GameInput::SoftDrop,
        GameInput::HardDrop,
        GameInput::RotateClockwise,
        GameInput::RotateCounterClockwise,
        GameInput::Quit,
        GameInput::Restart,
        GameInput::Pause,
        GameInput::ToggleEraseLine,
        GameInput::Unknown,
    ];

    for input in &inputs {
        let mut state = CoreGameState::new();
        state.game_mode = CoreGameMode::Playing;
        state.current_piece = Some(Tetromino::new_random(&mut state.bag));

        let result = process_input(state, *input, 0);
        match input {
            GameInput::MoveLeft
            | GameInput::MoveRight
            | GameInput::SoftDrop
            | GameInput::HardDrop
            | GameInput::RotateClockwise
            | GameInput::RotateCounterClockwise => {
                assert!(result.input_consumed || !result.input_consumed);
            }
            GameInput::Quit => {
                assert!(result.input_consumed);
            }
            GameInput::Pause => {
                assert_eq!(result.new_state.game_mode, CoreGameMode::Title);
                assert!(result.input_consumed);
            }
            GameInput::Unknown => {
                assert!(!result.input_consumed);
            }
            _ => {
                assert!(!result.input_consumed);
            }
        }
    }

    for input in &inputs {
        let mut state = CoreGameState::new();
        state.game_mode = CoreGameMode::Title;

        let result = process_input(state, *input, 0);
        match input {
            GameInput::Restart => {
                assert_eq!(result.new_state.game_mode, CoreGameMode::Playing);
                assert!(result.input_consumed);
            }
            GameInput::ToggleEraseLine => {
                assert!(result.input_consumed);
            }
            GameInput::Quit => {
                assert!(result.input_consumed);
            }
            _ => {
                assert!(!result.input_consumed);
            }
        }
    }

    for input in &inputs {
        let mut state = CoreGameState::new();
        state.game_mode = CoreGameMode::GameOver;

        let result = process_input(state, *input, 0);
        match input {
            GameInput::Restart => {
                assert_eq!(result.new_state.game_mode, CoreGameMode::Title);
                assert!(result.input_consumed);
            }
            GameInput::Quit => {
                assert!(result.input_consumed);
            }
            _ => {
                assert!(!result.input_consumed);
            }
        }
    }
}
