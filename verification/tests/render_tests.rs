use thud_and_tile::game_color::GameColor;
use thud_and_tile::render::{draw_title_screen, RecordingRenderer, RenderCommand, Renderer};

#[test]
fn title_screen_commands() {
    let mut r = RecordingRenderer::new();
    draw_title_screen(&mut r).unwrap();
    assert_eq!(
        r.commands,
        vec![
            RenderCommand::ClearScreen,
            RenderCommand::SetForegroundColor(GameColor::Yellow),
            RenderCommand::MoveTo(6, 8),
            RenderCommand::Print("THUD & TILE".to_string()),
            RenderCommand::SetForegroundColor(GameColor::White),
            RenderCommand::MoveTo(1, 10),
            RenderCommand::Print("Press Enter to Start".to_string()),
            RenderCommand::MoveTo(3, 11),
            RenderCommand::Print("Press 'q' to Quit".to_string()),
            RenderCommand::ResetColor,
            RenderCommand::Flush,
        ]
    );
}

#[test]
fn recording_renderer_keeps_order() {
    let mut r = RecordingRenderer::new();
    r.move_to(2, 3).unwrap();
    r.set_background_color(GameColor::Cyan).unwrap();
    r.print("12").unwrap();
    r.reset_color().unwrap();
    assert_eq!(
        r.commands,
        vec![
            RenderCommand::MoveTo(2, 3),
            RenderCommand::SetBackgroundColor(GameColor::Cyan),
            RenderCommand::Print("12".to_string()),
            RenderCommand::ResetColor,
        ]
    );
}

#[test]
fn recording_renderer_never_fails() {
    let mut r = RecordingRenderer::new();
    assert!(r.clear_screen().is_ok());
    assert!(r.flush().is_ok());
    assert!(draw_title_screen(&mut r).is_ok());
    assert_eq!(r.commands.len(), 13);
    assert_eq!(r.commands[2], RenderCommand::ClearScreen);
}
