//! The terminal front end's own rules: animation pacing, key repeat, the
//! render state and the text frames it draws.  Reading keys, the clock and
//! writing to the terminal are left to the program around the library.
pub mod cli_animation;
pub mod cli_game_state;
pub mod cli_input_handler;
pub mod cli_input_handler_simple;
pub mod cli_renderer;
pub mod cli_renderer_simple;
pub mod renderer;
