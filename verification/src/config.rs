use vstd::prelude::*;
use crate::game_color::GameColor;

verus! {

/// Number of columns of the play field.
pub const BOARD_WIDTH: usize = 10;

/// Number of rows of the play field.
pub const BOARD_HEIGHT: usize = 20;

/// The colours that new pieces are painted with.
pub const COLOR_PALETTE: [GameColor; 3] = [GameColor::Cyan, GameColor::Magenta, GameColor::Yellow];

/// Initial auto-fall interval, in milliseconds.
pub const FALL_SPEED_START_MS: u64 = 800;

/// Duration of one blink step of a line-clear animation, in milliseconds.
pub const BLINK_ANIMATION_STEP_MS: u64 = 120;

/// Number of blink steps after which a line-clear animation ends.
pub const BLINK_COUNT_MAX: usize = 6;

/// Duration of one push-down step, in milliseconds.
pub const PUSH_DOWN_STEP_DURATION_MS: u64 = 100;

} // verus!
