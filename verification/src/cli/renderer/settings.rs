//! What the terminal front end shows.
use vstd::prelude::*;

verus! {

/// Display options of the terminal front end.
#[derive(Debug, Clone, Copy, PartialEq, Eq, Structural)]
pub struct CliRenderSettings {
    pub show_debug_info: bool,
    pub show_fps: bool,
    pub show_animation_info: bool,
    pub use_colors: bool,
    pub double_buffering: bool,
}

impl Default for CliRenderSettings {
    /// Frame rate shown, colours and double buffering on, debug and
    /// animation details off.
    fn default() -> (s: Self)
        ensures
            s == (CliRenderSettings {
                show_debug_info: false,
                show_fps: true,
                show_animation_info: false,
                use_colors: true,
                double_buffering: true,
            }),
    {
        Self { show_debug_info: false, show_fps: true, show_animation_info: false, use_colors: true, double_buffering: true }
    }
}

} // verus!
