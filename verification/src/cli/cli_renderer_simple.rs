//! The simple terminal renderer: decides what part of the screen to draw
//! from the render state.
use vstd::prelude::*;
use crate::cli::cli_animation::CliAnimationManager;
use crate::cli::cli_game_state::CliRenderState;

verus! {

/// Display options of the simple renderer.
#[derive(Debug, Clone, Copy, PartialEq, Eq, Structural)]
pub struct CliRenderSettings {
    pub show_debug_info: bool,
    pub show_fps: bool,
    pub show_animation_info: bool,
    pub use_colors: bool,
    pub double_buffering: bool,
}

impl Default for CliRenderSettings {
    /// Frame rate shown, colours and double buffering on, debug and
    /// animation details off.
    fn default() -> (s: Self)
        ensures
            s == (CliRenderSettings {
                show_debug_info: false,
                show_fps: true,
                show_animation_info: false,
                use_colors: true,
                double_buffering: true,
            }),
    {
        Self { show_debug_info: false, show_fps: true, show_animation_info: false, use_colors: true, double_buffering: true }
    }
}

/// The part of the screen to draw.
#[derive(Debug, Clone, Copy, PartialEq, Eq, Structural)]
pub enum RenderPart {
    Full,
    BoardOnly,
    UiOnly,
    Nothing,
}

/// The simple renderer.
#[derive(Debug)]
pub struct CliRenderer {
    animation_manager: CliAnimationManager,
    pub settings: CliRenderSettings,
    frame_count: u64,
    render_buffer: Vec<String>,
}

impl CliRenderer {
    /// The display options.
    pub closed spec fn render_settings(&self) -> CliRenderSettings {
        self.settings
    }

    /// Frames drawn in full.
    pub closed spec fn frames(&self) -> u64 {
        self.frame_count
    }

    /// A renderer with the default settings.
    pub fn new() -> (r: Self)
        ensures
            r.render_settings() == (CliRenderSettings {
                show_debug_info: false,
                show_fps: true,
                show_animation_info: false,
                use_colors: true,
                double_buffering: true,
            }),
            r.frames() == 0,
    {
        Self::with_settings(CliRenderSettings::default())
    }

    /// A renderer with `settings`.
    pub fn with_settings(settings: CliRenderSettings) -> (r: Self)
        ensures
            r.render_settings() == settings,
            r.frames() == 0,
    {
        Self { animation_manager: CliAnimationManager::new_default(), settings, frame_count: 0, render_buffer: Vec::new() }
    }

    /// The part an incremental draw covers: everything when a full redraw is
    /// pending, else the board, else the panel, else nothing.
    pub fn incremental_part(&self, render_state: &CliRenderState) -> (p: RenderPart)
        ensures
            p == if render_state.needs_full_redraw {
                RenderPart::Full
            } else if render_state.needs_board_redraw {
                RenderPart::BoardOnly
            } else if render_state.needs_ui_redraw {
                RenderPart::UiOnly
            } else {
                RenderPart::Nothing
            },
    {
        if render_state.needs_full_redraw {
            RenderPart::Full
        } else if render_state.needs_board_redraw {
            RenderPart::BoardOnly
        } else if render_state.needs_ui_redraw {
            RenderPart::UiOnly
        } else {
            RenderPart::Nothing
        }
    }

    /// Counts a full draw; returns whether it goes through the buffer.
    pub fn count_full_frame(&mut self) -> (buffered: bool)
        requires
            old(self).frames() < u64::MAX,
        ensures
            final(self).frames() == old(self).frames() + 1,
            buffered == old(self).render_settings().double_buffering,
            final(self).render_settings() == old(self).render_settings(),
    {
        self.frame_count = self.frame_count + 1;
        self.settings.double_buffering
    }
}

} // verus!
