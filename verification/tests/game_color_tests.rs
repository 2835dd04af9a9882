use thud_and_tile::terminal_color::TermColor;
use thud_and_tile::game_color::GameColor;

#[test]
fn test_rgb_conversion() {
    assert_eq!(GameColor::Red.to_rgb(), (255, 0, 0));
    assert_eq!(GameColor::Green.to_rgb(), (0, 255, 0));
    assert_eq!(GameColor::Blue.to_rgb(), (0, 0, 255));
}

#[test]
fn test_hex_conversion() {
    assert_eq!(GameColor::Red.to_hex(), "#ff0000");
    assert_eq!(GameColor::Green.to_hex(), "#00ff00");
    assert_eq!(GameColor::Blue.to_hex(), "#0000ff");
    assert_eq!(GameColor::White.to_hex(), "#ffffff");
    assert_eq!(GameColor::Black.to_hex(), "#000000");
}

#[test]
fn test_css_names() {
    assert_eq!(GameColor::Red.to_css_name(), "red");
    assert_eq!(GameColor::Green.to_css_name(), "lime");
    assert_eq!(GameColor::Blue.to_css_name(), "blue");
}

#[test]
fn dark_colours_have_their_codes() {
    assert_eq!(GameColor::DarkYellow.to_hex(), "#808000");
    assert_eq!(GameColor::DarkYellow.to_css_name(), "goldenrod");
    assert_eq!(GameColor::DarkGrey.to_rgb(), (64, 64, 64));
    assert_eq!(GameColor::DarkMagenta.debug_name(), "DarkMagenta");
}

#[test]
fn test_crossterm_conversion() {
    let game_color = GameColor::Red;
    let terminal_color: TermColor = game_color.into();
    assert_eq!(terminal_color, TermColor::Red);

    let back_to_game: GameColor = terminal_color.into();
    assert_eq!(back_to_game, GameColor::Red);
}

#[test]
fn terminal_colours_read_back_to_game_colours() {
    let all = [
        GameColor::Cyan, GameColor::Magenta, GameColor::Yellow, GameColor::Grey,
        GameColor::Red, GameColor::Green, GameColor::Blue, GameColor::White,
        GameColor::Black, GameColor::DarkGrey, GameColor::DarkRed, GameColor::DarkGreen,
        GameColor::DarkBlue, GameColor::DarkYellow, GameColor::DarkMagenta, GameColor::DarkCyan,
    ];
    for c in all {
        let t: TermColor = c.into();
        assert_eq!(GameColor::from(t), c);
    }
    assert_eq!(GameColor::from(TermColor::Reset), GameColor::White);
    assert_eq!(GameColor::from(TermColor::AnsiValue(42)), GameColor::Grey);
    assert_eq!(GameColor::from(TermColor::Rgb { r: 255, g: 0, b: 255 }), GameColor::Magenta);
    assert_eq!(GameColor::from(TermColor::Rgb { r: 0, g: 255, b: 255 }), GameColor::Cyan);
    assert_eq!(GameColor::from(TermColor::Rgb { r: 1, g: 2, b: 3 }), GameColor::Grey);
    assert_eq!(GameColor::from(TermColor::Rgb { r: 0, g: 0, b: 0 }), GameColor::Black);
}
