//! Game rules written as functions from values to values, shared by every
//! front end.
pub mod board_logic;
pub mod erase_line_logic;
pub mod animation_logic;
pub mod game_state;
pub mod input_handler;
