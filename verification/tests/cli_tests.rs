use thud_and_tile::cell::Cell;
use thud_and_tile::cli::cli_animation::CliAnimationManager;
use thud_and_tile::cli::cli_game_state::CliGameState;
use thud_and_tile::cli::cli_input_handler::{CliInputHandler, InputDisposition};
use thud_and_tile::cli::cli_input_handler_simple::CliInputHandler as SimpleInputHandler;
use thud_and_tile::cli::cli_renderer::CliRenderer;
use thud_and_tile::cli::cli_renderer_simple::{CliRenderer as SimpleRenderer, RenderPart};
use thud_and_tile::cli::renderer::frame::Frame;
use thud_and_tile::cli::renderer::frame_builder::FrameBuilder;
use thud_and_tile::cli::renderer::settings::CliRenderSettings;
use thud_and_tile::cli::renderer::terminal_driver::TerminalDriver;
use thud_and_tile::core_logic::animation_logic::AnimationType;
use thud_and_tile::core_logic::game_state::{CoreGameEvent, CoreGameMode, CoreGameState};
use thud_and_tile::game_color::GameColor;
use thud_and_tile::game_input::GameInput;

#[test]
fn animation_manager_frame_timing() {
    let manager = CliAnimationManager::new_default();
    let stats = manager.get_performance_stats();
    assert_eq!(stats.target_fps, 60);
    assert_eq!(stats.frame_duration_ms, 16);
    assert!(manager.should_limit_framerate(10));
    assert!(!manager.should_limit_framerate(16));
    assert_eq!(manager.calculate_sleep_duration(10), Some(6));
    assert_eq!(manager.calculate_sleep_duration(20), None);
    assert_eq!(CliAnimationManager::new(25).get_performance_stats().frame_duration_ms, 40);
}

#[test]
fn animation_manager_hides_blinking_lines_on_odd_steps() {
    let mut manager = CliAnimationManager::new_default();
    let state = CoreGameState::new().start_line_blink(vec![18, 19], 0);
    assert!(!manager.should_render_line(19, &state, 130));
    assert!(manager.should_render_line(5, &state, 130));
    assert!(manager.should_render_line(25, &state, 130));
    assert!(manager.should_render_line(19, &state, 250));
}

#[test]
fn animation_manager_lists_running_kinds_once() {
    let manager = CliAnimationManager::new_default();
    let state = CoreGameState::new()
        .start_erase_line(vec![19], 0)
        .start_line_blink(vec![3], 0)
        .start_erase_line(vec![18], 0);
    assert_eq!(manager.get_active_animations(&state), vec![AnimationType::EraseLine, AnimationType::LineBlink]);
}

#[test]
fn cli_state_notes_redraws_from_events() {
    let mut cli = CliGameState::new();
    assert!(cli.needs_redraw());
    cli.mark_rendered();
    assert!(!cli.needs_redraw());
    let events = cli.handle_input(GameInput::Restart, 0);
    assert_eq!(events, vec![CoreGameEvent::GameModeChanged { new_mode: CoreGameMode::Playing }]);
    assert!(cli.render_state.needs_full_redraw);
    assert_eq!(cli.core.game_mode, CoreGameMode::Playing);
    cli.mark_rendered();
    cli.process_game_event(CoreGameEvent::GameOver);
    assert_eq!(cli.input_event_count, 1);
    assert!(cli.render_state.needs_full_redraw);
}

#[test]
fn cli_state_advances_animations() {
    let mut cli = CliGameState::new();
    cli.core = CoreGameState::new().start_line_blink(vec![19], 0);
    cli.mark_rendered();
    let events = cli.update_animations(1000);
    assert_eq!(events, vec![CoreGameEvent::AnimationCompleted { animation_type: AnimationType::LineBlink }]);
    assert!(cli.render_state.needs_board_redraw);
    assert!(!cli.core.has_animations());
}

#[test]
fn cli_state_counts_frames() {
    let mut cli = CliGameState::new();
    let mut due = Vec::new();
    for _ in 0..120 {
        due.push(cli.update_frame());
    }
    assert_eq!(cli.frame_count, 120);
    assert!(due[59] && due[119]);
    assert_eq!(due.iter().filter(|d| **d).count(), 2);
}

#[test]
fn held_keys_repeat_after_delay_then_at_interval() {
    let mut handler = CliInputHandler::new();
    assert_eq!(handler.register_input(GameInput::MoveLeft, 1000), InputDisposition::Apply);
    assert_eq!(handler.register_input(GameInput::RotateClockwise, 1000), InputDisposition::Apply);
    assert_eq!(handler.register_input(GameInput::Pause, 1000), InputDisposition::Ignore);
    assert_eq!(handler.register_input(GameInput::Quit, 1000), InputDisposition::Exit);
    assert!(handler.key_repeats(1400).is_empty());
    assert_eq!(handler.key_repeats(1500), vec![GameInput::MoveLeft]);
    assert!(handler.key_repeats(1520).is_empty());
    assert_eq!(handler.key_repeats(1550), vec![GameInput::MoveLeft]);
    let stats = handler.get_input_stats(1600);
    assert_eq!(stats.total_inputs, 4);
    assert_eq!(stats.active_keys, 1);
    assert_eq!(stats.last_input_elapsed_ms, 600);
    handler.reset_key_states();
    assert_eq!(handler.get_input_stats(1600).active_keys, 0);
}

#[test]
fn pressing_again_restarts_the_delay() {
    let mut handler = CliInputHandler::new();
    handler.register_input(GameInput::SoftDrop, 0);
    handler.register_input(GameInput::SoftDrop, 400);
    assert!(handler.key_repeats(500).is_empty());
    assert_eq!(handler.key_repeats(900), vec![GameInput::SoftDrop]);
    assert_eq!(handler.get_input_stats(900).active_keys, 1);
}

#[test]
fn simple_handler_drops_commands_within_cooldown() {
    let mut handler = SimpleInputHandler::new();
    assert!(handler.accept_input(1000));
    assert!(!handler.accept_input(1050));
    assert!(handler.accept_input(1100));
    assert_eq!(handler.input_count, 2);
    handler.set_cooldown_ms(0);
    assert!(handler.accept_input(1100));
    handler.reset_stats();
    assert_eq!(handler.input_count, 0);
}

#[test]
fn frame_flags() {
    let mut frame = Frame::new(vec!["a".to_string()]);
    assert!(frame.requires_clear);
    frame.set_requires_clear(false);
    assert!(!frame.requires_clear);
    let frame = Frame::with_clear_flag(vec![], false);
    assert!(!frame.requires_clear);
    let settings = CliRenderSettings::default();
    assert!(settings.show_fps && settings.use_colors && settings.double_buffering);
    assert!(!settings.show_debug_info && !settings.show_animation_info);
}

#[test]
fn full_frame_shows_board_piece_and_panel() {
    let mut state = CoreGameState::new();
    state.board[19][0] = Cell::Occupied(GameColor::Red);
    state.board[19][1] = Cell::Solid;
    state.score = 1250;
    state.chain_bonus = 2;
    state.max_chains.cyan = 3;
    let settings = CliRenderSettings { use_colors: false, ..CliRenderSettings::default() };
    let frame = FrameBuilder::new().build_full_frame(&state, &settings);
    assert!(frame.requires_clear);
    assert_eq!(frame.lines.len(), 33);
    assert_eq!(frame.lines[0], format!("┌{}┐", "──".repeat(10)));
    assert_eq!(frame.lines[20], format!("│██▓▓{}│", "  ".repeat(8)));
    assert_eq!(frame.lines[21], format!("└{}┘", "──".repeat(10)));
    assert_eq!(frame.lines[23], "TOTAL SCORE: 1250");
    assert_eq!(frame.lines[24], "CHAIN-BONUS: 2");
    assert_eq!(frame.lines[27], "  CYAN:    3");
    assert_eq!(frame.lines[32], "Mode: Title");
    let state = state.spawn_piece();
    let colored = FrameBuilder::new().build_full_frame(&state, &CliRenderSettings::default());
    let piece_blocks = state.current_piece.as_ref().unwrap().iter_blocks();
    let ((x, y), _) = piece_blocks[0];
    assert!(colored.lines[1 + y as usize].contains("\x1B["));
    assert!(x >= 0);
}

#[test]
fn driver_redraws_only_changed_lines() {
    let mut driver = TerminalDriver::new();
    let first = Frame::new(vec!["a".to_string(), "b".to_string(), "c".to_string()]);
    let settings = CliRenderSettings { double_buffering: false, ..CliRenderSettings::default() };
    assert!(driver.needs_full_frame(&first, &settings));
    assert_eq!(driver.changed_lines(&first), vec![0, 1, 2]);
    driver.remember(first);
    let second = Frame::with_clear_flag(vec!["a".to_string(), "x".to_string()], false);
    assert!(!driver.needs_full_frame(&second, &settings));
    assert!(!driver.clears_screen(&second, &settings));
    assert_eq!(driver.changed_lines(&second), vec![1]);
    assert_eq!(driver.stale_lines(&second), (2, 3));
}

#[test]
fn renderer_counts_frames() {
    let mut renderer = CliRenderer::new();
    let state = CoreGameState::new();
    let frame = renderer.prepare_frame(&state, true, Some(String::from("FPS: 60.0")));
    assert!(frame.requires_clear);
    assert_eq!(frame.lines.last().unwrap(), "FPS: 60.0");
    let frame = renderer.prepare_frame(&state, false, Some(String::from("FPS: 59.5")));
    assert!(!frame.requires_clear);
    let stats = renderer.get_render_stats();
    assert_eq!(stats.total_frames, 2);
    assert_eq!(stats.last_frame_lines, Some(34));
}

#[test]
fn renderer_without_fps_line_counts_thirty_three_lines() {
    let mut settings = CliRenderSettings::default();
    settings.show_fps = false;
    let mut renderer = CliRenderer::with_settings(settings);
    let state = CoreGameState::new();
    renderer.prepare_frame(&state, true, Some(String::from("FPS: 60.0")));
    assert_eq!(renderer.get_render_stats().last_frame_lines, Some(33));
    let mut shown = CliRenderer::new();
    shown.prepare_frame(&state, true, None);
    assert_eq!(shown.get_render_stats().last_frame_lines, Some(33));
}

#[test]
fn simple_renderer_picks_the_part_to_draw() {
    let mut renderer = SimpleRenderer::new();
    let mut cli = CliGameState::new();
    assert_eq!(renderer.incremental_part(&cli.render_state), RenderPart::Full);
    cli.mark_rendered();
    assert_eq!(renderer.incremental_part(&cli.render_state), RenderPart::Nothing);
    cli.render_state.needs_ui_redraw = true;
    assert_eq!(renderer.incremental_part(&cli.render_state), RenderPart::UiOnly);
    cli.render_state.needs_board_redraw = true;
    assert_eq!(renderer.incremental_part(&cli.render_state), RenderPart::BoardOnly);
    assert!(renderer.count_full_frame());
}
