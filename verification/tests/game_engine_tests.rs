use thud_and_tile::animation::Animation;
use thud_and_tile::cell::Cell;
use thud_and_tile::config::{BOARD_HEIGHT, BOARD_WIDTH};
use thud_and_tile::game_color::GameColor;
use thud_and_tile::game_engine::{GameMode, GameState, LoopAction};
use thud_and_tile::game_input::GameInput;
use thud_and_tile::tetromino::{Tetromino, TetrominoShape};

fn flat_i_piece(x: i8, y: i8) -> Tetromino {
    let mut piece = Tetromino::from_shape(TetrominoShape::I, [GameColor::Magenta; 4]);
    piece.pos = (x, y - 1);
    piece
}

#[test]
fn new_engine_state_is_an_empty_title_screen() {
    let state = GameState::new();
    assert_eq!(state.mode, GameMode::Title);
    assert_eq!(state.board.len(), BOARD_HEIGHT);
    assert!(state.board.iter().all(|r| r.len() == BOARD_WIDTH && r.iter().all(|c| *c == Cell::Empty)));
    assert!(state.current_piece.is_none());
    assert!(state.next_piece.is_some());
    assert_eq!(state.current_board_height, BOARD_HEIGHT);
    assert_eq!(state.fall_speed_ms, 800);
}

#[test]
fn locking_a_piece_that_fills_a_line_starts_its_blink_and_scores() {
    let mut state = GameState::new();
    state.mode = GameMode::Playing;
    for x in 0..BOARD_WIDTH {
        if !(3..7).contains(&x) {
            state.board[19][x] = Cell::Occupied(GameColor::Cyan);
        }
    }
    state.current_piece = Some(flat_i_piece(3, 19));
    state.lock_piece(1000);
    assert!(state.current_piece.is_none());
    assert_eq!(state.animation.len(), 1);
    match &state.animation[0] {
        Animation::LineBlink { lines, count, start_time } => {
            assert_eq!(lines, &vec![19]);
            assert_eq!(*count, 0);
            assert_eq!(*start_time, 1000);
        }
        other => panic!("unexpected animation {:?}", other),
    }
    // a full line takes no part in joining, and with no chain recorded it
    // scores nothing
    assert_eq!(state.board[19][4], Cell::Occupied(GameColor::Magenta));
    assert_eq!(state.custom_score_system.max_chains.magenta, 0);
    assert_eq!(state.custom_score_system.score.total(), 0);

    // once the blink is over the bottom line goes; removing it brings a
    // piece, and so does the empty animation list afterwards
    state.handle_animation(1000 + 10_000);
    assert!(state.animation.is_empty());
    assert!(state.board[19].iter().all(|c| *c == Cell::Empty));
    assert!(state.current_piece.is_some());
}

#[test]
fn locking_without_a_full_line_brings_the_next_piece() {
    let mut state = GameState::new();
    state.mode = GameMode::Playing;
    state.current_piece = Some(flat_i_piece(0, 19));
    let next = state.next_piece.clone();
    state.lock_piece(0);
    assert!(state.animation.is_empty());
    assert_eq!(state.board[19][0], Cell::Connected { color: GameColor::Magenta, count: 4 });
    assert_eq!(state.current_piece, next);
}

#[test]
fn clearing_a_line_above_the_bottom_turns_it_grey_and_pushes_it_down() {
    let mut state = GameState::new();
    for x in 0..BOARD_WIDTH {
        state.board[10][x] = Cell::Occupied(GameColor::Yellow);
    }
    // an isolated block below the cleared line disappears
    state.board[15][2] = Cell::Occupied(GameColor::Cyan);
    let anims = state.clear_lines(&vec![10], 500);
    assert_eq!(anims.len(), 1);
    assert!(matches!(anims[0], Animation::PushDown { gray_line_y: 10, start_time: 500 }));
    assert!(state.board[10].iter().all(|c| *c == Cell::Occupied(GameColor::Grey)));
    assert_eq!(state.board[15][2], Cell::Empty);
    assert!(state.custom_score_system.score.total() == 0);

    // the grey line moves down one row per step and becomes solid at the bottom
    state.animation = vec![Animation::PushDown { gray_line_y: 10, start_time: 500 }];
    state.handle_animation(600);
    assert!(state.board[11].iter().all(|c| *c == Cell::Occupied(GameColor::Grey)));
    assert!(matches!(state.animation[0], Animation::PushDown { gray_line_y: 11, start_time: 600 }));
    let mut t = 600;
    while let Some(Animation::PushDown { .. }) = state.animation.first() {
        t += 100;
        state.handle_animation(t);
    }
    assert!(state.board[19].iter().all(|c| *c == Cell::Solid));
    assert_eq!(state.current_board_height, 19);
}

#[test]
fn recount_gives_connected_blocks_their_group_size() {
    let mut state = GameState::new();
    state.board[19][0] = Cell::Connected { color: GameColor::Red, count: 1 };
    state.board[19][1] = Cell::Connected { color: GameColor::Red, count: 1 };
    state.board[18][1] = Cell::Occupied(GameColor::Red);
    state.update_all_connected_block_counts();
    assert_eq!(state.board[19][0], Cell::Connected { color: GameColor::Red, count: 3 });
    assert_eq!(state.board[18][1], Cell::Occupied(GameColor::Red));
    state.current_board_height = 19;
    state.update_all_connected_block_counts();
    // row 19 is outside the play area now and keeps its counts
    assert_eq!(state.board[19][0], Cell::Connected { color: GameColor::Red, count: 3 });
}

#[test]
fn commands_move_the_piece_where_it_has_room() {
    let mut state = GameState::new();
    state.mode = GameMode::Playing;
    state.current_piece = Some(flat_i_piece(0, 0));
    state.handle_input(GameInput::MoveLeft);
    assert_eq!(state.current_piece.as_ref().unwrap().pos, (0, -1));
    state.handle_input(GameInput::MoveRight);
    assert_eq!(state.current_piece.as_ref().unwrap().pos, (1, -1));
    state.handle_input(GameInput::HardDrop);
    assert_eq!(state.current_piece.as_ref().unwrap().pos, (1, 18));
    state.handle_input(GameInput::SoftDrop);
    assert_eq!(state.current_piece.as_ref().unwrap().pos, (1, 18));
    state.handle_input(GameInput::Pause);
    assert_eq!(state.current_piece.as_ref().unwrap().pos, (1, 18));
}

#[test]
fn a_blocked_spawn_ends_the_game() {
    let mut state = GameState::new();
    state.mode = GameMode::Playing;
    for y in 0..BOARD_HEIGHT {
        for x in 0..BOARD_WIDTH {
            state.board[y][x] = Cell::Occupied(GameColor::Grey);
        }
    }
    state.spawn_piece();
    assert_eq!(state.mode, GameMode::GameOver);
}

#[test]
fn the_ghost_piece_shows_where_the_piece_lands() {
    let mut state = GameState::new();
    assert!(state.ghost_piece().is_none());
    state.board[19][5] = Cell::Occupied(GameColor::Cyan);
    state.current_piece = Some(flat_i_piece(3, 0));
    let ghost = state.ghost_piece().unwrap();
    assert_eq!(ghost.pos, (3, 17));
}

#[test]
fn fall_step_lowers_locks_or_spawns() {
    let mut state = GameState::new();
    state.mode = GameMode::Playing;
    state.fall_step(0);
    assert!(state.current_piece.is_some());
    state.current_piece = Some(flat_i_piece(3, 10));
    state.fall_step(0);
    assert_eq!(state.current_piece.as_ref().unwrap().pos, (3, 10));
    state.current_piece = Some(flat_i_piece(3, 19));
    let next_shape = state.next_piece.as_ref().unwrap().shape;
    state.fall_step(0);
    for x in 3..7 {
        assert_eq!(state.board[19][x], Cell::Connected { color: GameColor::Magenta, count: 4 });
    }
    assert_eq!(state.current_piece.as_ref().unwrap().shape, next_shape);
}

#[test]
fn commands_move_between_title_play_and_game_over() {
    let mut state = GameState::new();
    assert_eq!(state.handle_command(GameInput::MoveLeft), LoopAction::Continue);
    assert_eq!(state.mode, GameMode::Title);
    assert_eq!(state.handle_command(GameInput::Restart), LoopAction::Continue);
    assert_eq!(state.mode, GameMode::Playing);
    assert!(state.current_piece.is_some());
    let x = state.current_piece.as_ref().unwrap().pos.0;
    assert_eq!(state.handle_command(GameInput::MoveLeft), LoopAction::Continue);
    assert_eq!(state.current_piece.as_ref().unwrap().pos.0, x - 1);
    assert_eq!(state.handle_command(GameInput::Quit), LoopAction::Continue);
    assert_eq!(state.mode, GameMode::GameOver);
    assert_eq!(state.handle_command(GameInput::Restart), LoopAction::Continue);
    assert_eq!(state.mode, GameMode::Title);
    assert!(state.current_piece.is_none());
    assert_eq!(state.handle_command(GameInput::Quit), LoopAction::Exit);
}
