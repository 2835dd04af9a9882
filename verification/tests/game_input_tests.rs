use thud_and_tile::game_input::{input_from_key, keep_known_input, GameInput, InputProvider, Key, WebInputProvider};

#[test]
fn test_game_input_classification() {
    assert!(GameInput::MoveLeft.is_movement());
    assert!(GameInput::SoftDrop.is_movement());
    assert!(!GameInput::RotateClockwise.is_movement());
    assert!(GameInput::RotateClockwise.is_rotation());
    assert!(GameInput::RotateCounterClockwise.is_rotation());
    assert!(!GameInput::MoveLeft.is_rotation());
    assert!(GameInput::Quit.is_control());
    assert!(GameInput::Restart.is_control());
    assert!(!GameInput::MoveLeft.is_control());
}

#[test]
fn test_game_input_descriptions() {
    assert_eq!(GameInput::MoveLeft.description(), "Move Left");
    assert_eq!(GameInput::Quit.description(), "Quit Game");
    assert_eq!(GameInput::Unknown.description(), "Unknown Input");
}

#[test]
fn test_web_input_provider_creation() {
    let mut provider = WebInputProvider::new();
    assert!(!provider.poll_input(0).unwrap());
    assert_eq!(provider.read_input().unwrap(), None);
    provider.push_input(GameInput::MoveLeft);
    assert!(provider.poll_input(0).unwrap());
    assert_eq!(provider.read_input().unwrap(), Some(GameInput::MoveLeft));
}

#[test]
fn web_provider_hands_out_all_in_order() {
    let mut provider = WebInputProvider::new();
    provider.push_input(GameInput::MoveRight);
    provider.push_input(GameInput::HardDrop);
    provider.push_input(GameInput::Pause);
    assert_eq!(
        provider.read_all_pending().unwrap(),
        vec![GameInput::MoveRight, GameInput::HardDrop, GameInput::Pause]
    );
    assert!(!provider.poll_input(0).unwrap());
}

#[test]
fn keys_map_to_commands() {
    assert_eq!(input_from_key(Key::Left, false, true), GameInput::MoveLeft);
    assert_eq!(input_from_key(Key::Down, false, true), GameInput::RotateClockwise);
    assert_eq!(input_from_key(Key::Down, true, true), GameInput::HardDrop);
    assert_eq!(input_from_key(Key::Up, false, true), GameInput::RotateCounterClockwise);
    assert_eq!(input_from_key(Key::Char(' '), false, true), GameInput::SoftDrop);
    assert_eq!(input_from_key(Key::Char('Q'), false, true), GameInput::Quit);
    assert_eq!(input_from_key(Key::Char('p'), false, true), GameInput::Pause);
    assert_eq!(input_from_key(Key::Enter, false, true), GameInput::Restart);
    assert_eq!(input_from_key(Key::Char('x'), false, true), GameInput::Unknown);
    assert_eq!(input_from_key(Key::Left, false, false), GameInput::Unknown);
}

#[test]
fn unknown_inputs_are_dropped() {
    let mut pending = Vec::new();
    keep_known_input(&mut pending, GameInput::Unknown);
    keep_known_input(&mut pending, GameInput::MoveLeft);
    assert_eq!(pending, vec![GameInput::MoveLeft]);
}
