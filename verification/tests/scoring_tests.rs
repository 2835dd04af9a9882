use thud_and_tile::cell::Cell;
use thud_and_tile::config::{BOARD_HEIGHT, BOARD_WIDTH};
use thud_and_tile::game_color::GameColor;
use thud_and_tile::scoring::{calculate_line_clear_total_score, ColorMaxChains, CustomScoreSystem, TotalScore};

#[test]
fn test_total_score_initialization() {
    let score = TotalScore::new();
    assert_eq!(score.total(), 0);
}

#[test]
fn test_total_score_add() {
    let mut score = TotalScore::new();
    score.add(150);
    score.add(275);
    assert_eq!(score.total(), 425);
}

#[test]
fn test_color_max_chains_initialization() {
    let max_chains = ColorMaxChains::new();
    assert_eq!(max_chains.cyan, 0);
    assert_eq!(max_chains.magenta, 0);
    assert_eq!(max_chains.yellow, 0);
    assert_eq!(max_chains.max(), 0);
}

#[test]
fn test_color_max_chains_update() {
    let mut max_chains = ColorMaxChains::new();
    max_chains.update_max(GameColor::Cyan, 3);
    max_chains.update_max(GameColor::Magenta, 5);
    max_chains.update_max(GameColor::Yellow, 2);
    assert_eq!(max_chains.get(GameColor::Cyan), 3);
    assert_eq!(max_chains.get(GameColor::Magenta), 5);
    assert_eq!(max_chains.get(GameColor::Yellow), 2);
    assert_eq!(max_chains.max(), 5);
    max_chains.update_max(GameColor::Cyan, 2);
    max_chains.update_max(GameColor::Magenta, 4);
    assert_eq!(max_chains.get(GameColor::Cyan), 3);
    assert_eq!(max_chains.get(GameColor::Magenta), 5);
    max_chains.update_max(GameColor::Yellow, 8);
    assert_eq!(max_chains.get(GameColor::Yellow), 8);
    assert_eq!(max_chains.max(), 8);
}

#[test]
fn test_custom_score_system_initialization() {
    let system = CustomScoreSystem::new();
    assert_eq!(system.score.total(), 0);
    assert_eq!(system.max_chains.max(), 0);
    assert_eq!(system.chain_bonus, 0);
}

#[test]
fn test_set_chain_bonus_from_total() {
    let mut system = CustomScoreSystem::new();
    system.set_chain_bonus_from_total(3);
    assert_eq!(system.chain_bonus, 3);
    system.set_chain_bonus_from_total(9);
    assert_eq!(system.chain_bonus, 9);
    system.set_chain_bonus_from_total(12);
    assert_eq!(system.chain_bonus, 10);
}

#[test]
fn test_chain_bonus_add() {
    let mut system = CustomScoreSystem::new();
    system.add_chain_bonus(3);
    assert_eq!(system.chain_bonus, 3);
    system.add_chain_bonus(5);
    assert_eq!(system.chain_bonus, 8);
    system.add_chain_bonus(5);
    assert_eq!(system.chain_bonus, 10);
    system.add_chain_bonus(3);
    assert_eq!(system.chain_bonus, 10);
}

#[test]
fn test_chain_bonus_consume() {
    let mut system = CustomScoreSystem::new();
    system.add_chain_bonus(7);
    let consumed = system.consume_chain_bonus(3);
    assert_eq!(consumed, 3);
    assert_eq!(system.chain_bonus, 4);
    let consumed = system.consume_chain_bonus(2);
    assert_eq!(consumed, 2);
    assert_eq!(system.chain_bonus, 2);
    let consumed = system.consume_chain_bonus(5);
    assert_eq!(consumed, 2);
    assert_eq!(system.chain_bonus, 0);
    let consumed = system.consume_chain_bonus(3);
    assert_eq!(consumed, 0);
    assert_eq!(system.chain_bonus, 0);
}

#[test]
fn test_custom_score_system_display() {
    let mut system = CustomScoreSystem::new();
    system.add_score(1120);
    system.max_chains.update_max(GameColor::Cyan, 2);
    system.max_chains.update_max(GameColor::Magenta, 4);
    system.max_chains.update_max(GameColor::Yellow, 5);
    let expected = "SCORE:    1120\n\nMAX-CHAIN:\n  CYAN:    2\n  MAGENTA: 4\n  YELLOW:  5";
    assert_eq!(system.display_string(), expected);
}

fn create_test_board_with_line() -> Vec<Vec<Cell>> {
    let mut board = vec![vec![Cell::Empty; BOARD_WIDTH]; BOARD_HEIGHT];
    let line_y = 19;
    board[line_y] = vec![
        Cell::Occupied(GameColor::Cyan),
        Cell::Occupied(GameColor::Magenta),
        Cell::Occupied(GameColor::Yellow),
        Cell::Occupied(GameColor::Cyan),
        Cell::Occupied(GameColor::Magenta),
        Cell::Occupied(GameColor::Yellow),
        Cell::Occupied(GameColor::Cyan),
        Cell::Occupied(GameColor::Magenta),
        Cell::Occupied(GameColor::Yellow),
        Cell::Occupied(GameColor::Cyan),
    ];
    board
}

#[test]
fn test_calculate_line_clear_total_score_basic() {
    let board = create_test_board_with_line();
    let mut max_chains = ColorMaxChains::new();
    max_chains.cyan = 2;
    max_chains.magenta = 3;
    max_chains.yellow = 1;
    let total_score = calculate_line_clear_total_score(&board, 19, &max_chains);
    assert_eq!(total_score, 200);
}

#[test]
fn test_calculate_line_clear_total_score_connected() {
    let mut board = vec![vec![Cell::Empty; BOARD_WIDTH]; BOARD_HEIGHT];
    board[19][0] = Cell::Connected { color: GameColor::Cyan, count: 3 };
    board[19][1] = Cell::Connected { color: GameColor::Yellow, count: 5 };
    let mut max_chains = ColorMaxChains::new();
    max_chains.cyan = 2;
    max_chains.magenta = 1;
    max_chains.yellow = 4;
    let total_score = calculate_line_clear_total_score(&board, 19, &max_chains);
    assert_eq!(total_score, 260);
}

#[test]
fn test_new_score_calculation_function() {
    let mut board: Vec<Vec<Cell>> = vec![vec![Cell::Empty; 10]; 20];
    board[19][0] = Cell::Occupied(GameColor::Cyan);
    board[19][1] = Cell::Occupied(GameColor::Cyan);
    board[19][2] = Cell::Occupied(GameColor::Cyan);
    board[19][3] = Cell::Occupied(GameColor::Magenta);
    board[19][4] = Cell::Occupied(GameColor::Magenta);
    board[19][5] = Cell::Connected { color: GameColor::Yellow, count: 2 };
    let mut max_chains = ColorMaxChains::new();
    max_chains.cyan = 3;
    max_chains.magenta = 2;
    max_chains.yellow = 4;
    let total_score = calculate_line_clear_total_score(&board, 19, &max_chains);
    assert_eq!(total_score, 210);
}

#[test]
fn test_new_score_calculation_edge_cases() {
    let mut max_chains = ColorMaxChains::new();
    max_chains.cyan = 2;
    let empty_board: Vec<Vec<Cell>> = vec![vec![Cell::Empty; 10]; 20];
    let score_empty = calculate_line_clear_total_score(&empty_board, 19, &max_chains);
    assert_eq!(score_empty, 0);
    let mut partial_board: Vec<Vec<Cell>> = vec![vec![Cell::Empty; 10]; 20];
    partial_board[19][0] = Cell::Occupied(GameColor::Cyan);
    partial_board[19][1] = Cell::Occupied(GameColor::Cyan);
    let score_partial = calculate_line_clear_total_score(&partial_board, 19, &max_chains);
    assert_eq!(score_partial, 40);
}

#[test]
fn untracked_colours_score_nothing() {
    let mut board: Vec<Vec<Cell>> = vec![vec![Cell::Empty; 10]; 20];
    board[19][0] = Cell::Occupied(GameColor::Red);
    board[19][1] = Cell::Solid;
    let mut max_chains = ColorMaxChains::new();
    max_chains.cyan = 9;
    assert_eq!(calculate_line_clear_total_score(&board, 19, &max_chains), 0);
}
