//! Text frames of the terminal front end and the settings they follow.
pub mod frame;
pub mod frame_builder;
pub mod settings;
pub mod terminal_driver;
