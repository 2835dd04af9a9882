//! Thud & Tile: a falling-block puzzle with coloured tiles, chains of
//! same-coloured blocks, grey "push down" lines and a chain bonus that
//! erases solid lines.  This crate holds the game's rules and state
//! machines; terminal I/O lives in the companion program.
pub mod config;
pub mod game_color;
pub mod terminal_color;
pub mod cell;
pub mod text;
pub mod connectivity;
pub mod board_logic;
pub mod scoring;
pub mod animation;
pub mod core_logic;
pub mod random;
pub mod tetromino;
pub mod game_input;
pub mod scheduler;
pub mod test_time_provider;
pub mod cli;
pub mod cli_bridge;
pub mod game_engine;
pub mod web;
pub mod web_game;
pub mod render;
