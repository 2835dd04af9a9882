use thud_and_tile::cell::Cell;
use thud_and_tile::game_color::GameColor;

#[test]
fn test_connected_cell_debug_output() {
    let cell = Cell::Connected {
        color: GameColor::Red,
        count: 5,
    };
    assert_eq!(cell.debug_string(), "Connected(Red, 5)");
}

#[test]
fn cell_debug_text_of_each_kind() {
    assert_eq!(Cell::Empty.debug_string(), "Empty");
    assert_eq!(Cell::Solid.debug_string(), "Solid");
    assert_eq!(Cell::Occupied(GameColor::DarkCyan).debug_string(), "Occupied(DarkCyan)");
    assert_eq!(Cell::Connected { color: GameColor::Yellow, count: 12 }.debug_string(), "Connected(Yellow, 12)");
}
