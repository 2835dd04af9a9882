use thud_and_tile::animation::Animation;
use thud_and_tile::cell::Cell;
use thud_and_tile::game_color::GameColor;
use thud_and_tile::web::SimpleTetromino;
use thud_and_tile::web_game::WebGameState;

fn playing_state_with(piece: SimpleTetromino) -> WebGameState {
    let mut s = WebGameState::new(0);
    s.start_game(0);
    s.current_piece = Some(piece);
    s
}

fn piece(shape: u8, x: usize, y: usize, rotation: u8) -> SimpleTetromino {
    SimpleTetromino {
        x,
        y,
        rotation,
        colors: vec![GameColor::Cyan, GameColor::Magenta, GameColor::Yellow, GameColor::Cyan],
        shape,
    }
}

#[test]
fn web_game_new_is_at_title() {
    let s = WebGameState::new(42);
    assert_eq!(s.game_mode, 0);
    assert!(s.current_piece.is_none());
    assert!(s.next_piece.is_none());
    assert_eq!(s.last_fall_time_ms, 42);
    assert_eq!(s.fall_speed_ms, 800);
    assert_eq!(s.current_board_height, 20);
    assert!(s.board.iter().all(|row| row.iter().all(|c| *c == Cell::Empty)));
}

#[test]
fn web_game_start_spawns_pieces() {
    let mut s = WebGameState::new(0);
    assert!(s.handle_input(6, 500));
    assert_eq!(s.game_mode, 1);
    assert_eq!(s.last_fall_time_ms, 500);
    let p = s.current_piece.clone().unwrap();
    assert_eq!((p.x, p.y, p.rotation), (3, 0, 0));
    assert!(p.shape < 7);
    assert_eq!(p.colors.len(), 4);
    assert!(s.next_piece.is_some());
}

#[test]
fn web_game_moves_only_while_playing() {
    let mut s = playing_state_with(piece(2, 3, 0, 0));
    assert!(s.handle_input(0, 0));
    assert_eq!(s.current_piece.as_ref().unwrap().x, 2);
    assert!(s.handle_input(1, 0));
    assert!(s.handle_input(1, 0));
    assert_eq!(s.current_piece.as_ref().unwrap().x, 4);
    assert!(s.handle_input(2, 0));
    assert_eq!(s.current_piece.as_ref().unwrap().y, 1);
    assert!(s.handle_input(7, 0));
    assert_eq!(s.game_mode, 0);
    assert!(!s.handle_input(0, 0));
    assert_eq!(s.current_piece.as_ref().unwrap().x, 4);
}

#[test]
fn web_game_unknown_code_does_nothing() {
    let mut s = playing_state_with(piece(2, 3, 0, 0));
    assert!(!s.handle_input(8, 0));
    assert!(!s.handle_input(200, 0));
    assert_eq!(s.current_piece.as_ref().unwrap().x, 3);
}

#[test]
fn web_game_wall_stops_move() {
    // The T piece in state 0 covers columns x..x+2.
    let mut s = playing_state_with(piece(2, 0, 0, 0));
    assert!(!s.move_current_piece(-1, 0));
    assert_eq!(s.current_piece.as_ref().unwrap().x, 0);
    let mut s = playing_state_with(piece(2, 7, 0, 0));
    assert!(!s.move_current_piece(1, 0));
    assert_eq!(s.current_piece.as_ref().unwrap().x, 7);
}

#[test]
fn web_game_rotation_uses_kicks() {
    let mut s = playing_state_with(piece(2, 3, 5, 0));
    assert!(s.handle_input(3, 0));
    let p = s.current_piece.clone().unwrap();
    assert_eq!((p.x, p.y, p.rotation), (3, 5, 1));
    assert!(s.handle_input(4, 0));
    assert_eq!(s.current_piece.as_ref().unwrap().rotation, 0);
    // Against the left wall (column -1), state 1 of the T piece (columns
    // x+1 and x+2) turned back to state 0 needs the kick one column right.
    let mut s = playing_state_with(piece(2, usize::MAX, 5, 1));
    assert!(s.rotate_current_piece(false));
    let p = s.current_piece.clone().unwrap();
    assert_eq!(p.rotation, 0);
    assert_eq!(p.x, 0);
}

#[test]
fn web_game_hard_drop_locks_piece() {
    let mut s = playing_state_with(piece(1, 3, 0, 0));
    let next = s.next_piece.clone().unwrap();
    assert!(s.handle_input(5, 77));
    // The O piece covers columns 4 and 5 of its rows 1 and 2: it lands on
    // rows 18 and 19.
    for y in 18..20 {
        for x in 4..6 {
            assert!(matches!(s.board[y][x], Cell::Occupied(_) | Cell::Connected { .. }));
        }
    }
    let cur = s.current_piece.clone().unwrap();
    assert_eq!((cur.x, cur.y, cur.shape), (next.x, next.y, next.shape));
    assert!(s.animation.is_empty());
    // Nothing moves down any more at the bottom.
    let mut t = playing_state_with(piece(1, 3, 17, 0));
    assert!(!t.hard_drop(0));
}

#[test]
fn web_game_full_line_starts_blink() {
    let mut s = playing_state_with(piece(0, 3, 18, 0));
    for x in 0..10 {
        if !(3..7).contains(&x) {
            s.board[19][x] = Cell::Occupied(GameColor::Yellow);
        }
    }
    s.lock_piece(123);
    assert!(s.current_piece.is_none());
    assert_eq!(s.animation.len(), 1);
    match &s.animation[0] {
        Animation::LineBlink { lines, count, start_time } => {
            assert_eq!(lines, &vec![19]);
            assert_eq!(*count, 0);
            assert_eq!(*start_time, 123);
        },
        _ => panic!("expected a blink"),
    }
    assert_eq!(s.custom_score_system.score.total(), 0);
}

#[test]
fn web_game_lock_joins_groups() {
    // Two cyan blocks of the piece next to a cyan block on the board.
    let mut s = playing_state_with(SimpleTetromino {
        x: 3,
        y: 17,
        rotation: 0,
        colors: vec![GameColor::Cyan, GameColor::Cyan, GameColor::Magenta, GameColor::Magenta],
        shape: 0,
    });
    s.board[19][3] = Cell::Occupied(GameColor::Cyan);
    s.lock_piece(0);
    assert_eq!(s.board[18][3], Cell::Connected { color: GameColor::Cyan, count: 3 });
    assert_eq!(s.board[18][4], Cell::Connected { color: GameColor::Cyan, count: 3 });
    assert_eq!(s.board[19][3], Cell::Connected { color: GameColor::Cyan, count: 3 });
    assert_eq!(s.custom_score_system.max_chains.cyan, 3);
    assert_eq!(s.custom_score_system.max_chains.magenta, 2);
    assert!(s.current_piece.is_some());
}

#[test]
fn web_game_auto_fall_waits_for_fall_speed() {
    let mut s = playing_state_with(piece(2, 3, 0, 0));
    s.last_fall_time_ms = 0;
    assert!(!s.auto_fall(100));
    assert_eq!(s.current_piece.as_ref().unwrap().y, 0);
    assert!(s.auto_fall(800));
    assert_eq!(s.current_piece.as_ref().unwrap().y, 1);
    assert_eq!(s.last_fall_time_ms, 800);
}

#[test]
fn web_game_auto_fall_outside_play_does_nothing() {
    let mut s = WebGameState::new(0);
    assert!(!s.auto_fall(10_000));
    assert_eq!(s.game_mode, 0);
}

#[test]
fn web_game_auto_fall_locks_at_bottom() {
    let mut s = playing_state_with(piece(1, 3, 17, 0));
    let next = s.next_piece.clone().unwrap();
    s.last_fall_time_ms = 0;
    assert!(s.auto_fall(1000));
    assert!(matches!(s.board[19][4], Cell::Occupied(_) | Cell::Connected { .. }));
    assert_eq!(s.current_piece.as_ref().unwrap().shape, next.shape);
    assert_eq!(s.last_fall_time_ms, 1000);
}

#[test]
fn web_game_blink_on_bottom_line_clears_it() {
    let mut s = playing_state_with(piece(2, 3, 0, 0));
    s.current_piece = None;
    for x in 0..10 {
        s.board[19][x] = Cell::Occupied(GameColor::Cyan);
    }
    s.board[18][0] = Cell::Occupied(GameColor::Magenta);
    s.animation.push(Animation::LineBlink { lines: vec![19], count: 0, start_time: 0 });
    s.update_animation(100);
    assert_eq!(s.animation.len(), 1);
    assert!(s.current_piece.is_none());
    s.update_animation(720);
    assert!(s.animation.is_empty());
    assert_eq!(s.board[19][0], Cell::Occupied(GameColor::Magenta));
    assert!(s.board[19][1..].iter().all(|c| *c == Cell::Empty));
    assert!(s.current_piece.is_some());
}

#[test]
fn web_game_blink_above_bottom_turns_grey() {
    let mut s = playing_state_with(piece(2, 3, 0, 0));
    s.current_piece = None;
    for x in 0..10 {
        s.board[10][x] = Cell::Occupied(GameColor::Yellow);
    }
    s.animation.push(Animation::LineBlink { lines: vec![10], count: 0, start_time: 0 });
    s.update_animation(720);
    assert!(s.board[10].iter().all(|c| *c == Cell::Occupied(GameColor::Grey)));
    // No push-down starts in the browser game: with no animation left a
    // piece comes.
    assert!(s.animation.is_empty());
    assert!(s.current_piece.is_some());
}

#[test]
fn web_game_board_state_codes() {
    let mut s = WebGameState::new(0);
    s.board[0][0] = Cell::Occupied(GameColor::Cyan);
    s.board[0][1] = Cell::Occupied(GameColor::Magenta);
    s.board[0][2] = Cell::Occupied(GameColor::Yellow);
    s.board[0][3] = Cell::Occupied(GameColor::Red);
    s.board[1][0] = Cell::Connected { color: GameColor::Cyan, count: 2 };
    s.board[1][1] = Cell::Connected { color: GameColor::Magenta, count: 2 };
    s.board[1][2] = Cell::Connected { color: GameColor::Yellow, count: 2 };
    s.board[1][3] = Cell::Connected { color: GameColor::Blue, count: 2 };
    s.board[19][9] = Cell::Solid;
    let codes = s.get_board_state();
    assert_eq!(codes.len(), 200);
    assert_eq!(&codes[0..5], &[1, 2, 3, 4, 0]);
    assert_eq!(&codes[10..15], &[10, 11, 12, 13, 0]);
    assert_eq!(codes[199], 21);
    assert_eq!(s.get_game_mode(), 0);
    assert_eq!(s.get_score(), 0);
}

#[test]
fn web_game_height_is_capped() {
    let mut s = WebGameState::new(0);
    s.set_current_board_height(25);
    assert_eq!(s.get_current_board_height(), 20);
    s.set_current_board_height(12);
    assert_eq!(s.get_current_board_height(), 12);
    s.set_fall_speed_ms(300);
    assert_eq!(s.get_fall_speed_ms(), 300);
}

#[test]
fn web_game_ghost_position() {
    let s = playing_state_with(piece(1, 3, 0, 0));
    let p = s.current_piece.clone().unwrap();
    // The O piece covers its rows 1 and 2: it stops with its position on row 17.
    assert_eq!(s.calculate_ghost_position(&p), Some((3, 17)));
    let low = piece(1, 3, 17, 0);
    assert_eq!(s.calculate_ghost_position(&low), None);
}

#[test]
fn web_game_info_lists() {
    let mut s = playing_state_with(piece(2, 4, 6, 1));
    s.board[19][2] = Cell::Connected { color: GameColor::Cyan, count: 2 };
    s.board[19][3] = Cell::Connected { color: GameColor::Cyan, count: 2 };
    s.board[5][0] = Cell::Occupied(GameColor::Yellow);
    assert_eq!(s.get_connected_cells_info(), vec![2, 19, 2, 3, 19, 2]);
    assert_eq!(s.get_current_piece_info(), vec![4, 6, 1, 2]);
    s.custom_score_system.max_chains.magenta = 7;
    assert_eq!(s.get_max_chains(), vec![0, 7, 0]);
    s.current_piece = None;
    assert!(s.get_current_piece_info().is_empty());
}
