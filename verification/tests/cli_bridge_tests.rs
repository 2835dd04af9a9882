use thud_and_tile::cell::Cell;
use thud_and_tile::cli_bridge::{CLIBridge, CLIGameMode, CLIGameState};
use thud_and_tile::config::{BOARD_HEIGHT, BOARD_WIDTH, FALL_SPEED_START_MS};
use thud_and_tile::core_logic::game_state::CoreGameMode;
use thud_and_tile::game_color::GameColor;
use thud_and_tile::game_input::GameInput;
use thud_and_tile::scoring::CustomScoreSystem;

#[test]
fn test_board_conversion() {
    let cli_board = vec![vec![Cell::Empty; BOARD_WIDTH]; BOARD_HEIGHT];
    let fixed_board = CLIBridge::convert_board_to_fixed(&cli_board);
    let converted_back = CLIBridge::convert_fixed_to_board(&fixed_board);
    assert_eq!(cli_board, converted_back);
}

#[test]
fn test_mode_conversion() {
    let core_modes = [CoreGameMode::Title, CoreGameMode::Playing, CoreGameMode::GameOver];
    let cli_modes = [CLIGameMode::Title, CLIGameMode::Playing, CLIGameMode::GameOver];

    for (core, cli) in core_modes.iter().zip(cli_modes.iter()) {
        assert_eq!(*cli, CLIBridge::convert_mode_to_cli(*core));
        assert_eq!(*core, CLIBridge::convert_mode_to_core(*cli));
    }
}

#[test]
fn test_bridge_initialization() {
    let bridge = CLIBridge::new();
    assert_eq!(bridge.core_state.game_mode, CoreGameMode::Title);
    assert!(bridge.next_piece.is_some());
    assert!(!bridge.enable_erase_line);
}

#[test]
fn short_boards_are_padded_with_empty_cells() {
    let mut board = vec![vec![Cell::Empty; 3]; 2];
    board[1][2] = Cell::Occupied(GameColor::Cyan);
    let fixed = CLIBridge::convert_board_to_fixed(&board);
    assert_eq!(fixed[1][2], Cell::Occupied(GameColor::Cyan));
    assert_eq!(fixed[BOARD_HEIGHT - 1][BOARD_WIDTH - 1], Cell::Empty);
    let rows = CLIBridge::convert_fixed_to_board(&fixed);
    assert_eq!(rows.len(), BOARD_HEIGHT);
    assert!(rows.iter().all(|r| r.len() == BOARD_WIDTH));
}

#[test]
fn syncing_both_ways_carries_the_shared_fields() {
    let mut bridge = CLIBridge::new();
    let events = bridge.handle_input_core(GameInput::Restart, 0);
    assert_eq!(events.len(), 1);
    assert_eq!(bridge.core_state.game_mode, CoreGameMode::Playing);
    bridge.core_state.chain_bonus = 7;
    bridge.core_state.board[19][0] = Cell::Occupied(GameColor::Magenta);

    let mut cli_state = CLIGameState {
        mode: CLIGameMode::Title,
        board: vec![vec![Cell::Empty; BOARD_WIDTH]; BOARD_HEIGHT],
        current_piece: None,
        next_piece: None,
        animation: Vec::new(),
        lines_cleared: 0,
        fall_speed_ms: 0,
        current_board_height: 0,
        custom_score_system: CustomScoreSystem::new(),
        enable_erase_line: false,
    };
    bridge.sync_to_cli_state(&mut cli_state);
    assert_eq!(cli_state.mode, CLIGameMode::Playing);
    assert_eq!(cli_state.board[19][0], Cell::Occupied(GameColor::Magenta));
    assert_eq!(cli_state.custom_score_system.chain_bonus, 7);
    assert_eq!(cli_state.fall_speed_ms, FALL_SPEED_START_MS);
    assert_eq!(cli_state.current_piece, bridge.core_state.current_piece);
    assert_eq!(cli_state.next_piece, bridge.next_piece);

    cli_state.mode = CLIGameMode::GameOver;
    cli_state.enable_erase_line = true;
    cli_state.custom_score_system.chain_bonus = 2;
    cli_state.board[0][4] = Cell::Solid;
    bridge.sync_from_cli_state(&cli_state);
    assert_eq!(bridge.core_state.game_mode, CoreGameMode::GameOver);
    assert!(bridge.core_state.enable_erase_line);
    assert!(bridge.enable_erase_line);
    assert_eq!(bridge.core_state.chain_bonus, 2);
    assert_eq!(bridge.core_state.board[0][4], Cell::Solid);
    assert_eq!(bridge.core_state.board[19][0], Cell::Occupied(GameColor::Magenta));
}
