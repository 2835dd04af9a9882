//! The terminal renderer: builds the frame to show and keeps the drawing
//! figures.  Sending the frame to the terminal is left to the program.
use vstd::prelude::*;
use crate::cli::cli_animation::CliAnimationManager;
use crate::cli::renderer::frame::Frame;
use crate::cli::renderer::frame_builder::{FrameBuilder, frame_text, texts};
use crate::cli::renderer::settings::CliRenderSettings;
use crate::cli::renderer::terminal_driver::TerminalDriver;
use crate::core_logic::game_state::CoreGameState;
use crate::core_logic::input_handler::piece_ok;

verus! {

/// Drawing figures.
#[derive(Debug, Clone, PartialEq, Eq)]
pub struct RenderStats {
    pub total_frames: u64,
    pub last_frame_lines: Option<usize>,
    pub settings: CliRenderSettings,
}

/// The renderer: settings, frame count, frame builder, the frame on the
/// screen.
#[derive(Debug)]
pub struct CliRenderer {
    _animation_manager: CliAnimationManager,
    pub settings: CliRenderSettings,
    frame_count: u64,
    frame_builder: FrameBuilder,
    pub terminal_driver: TerminalDriver,
    last_frame_lines: Option<usize>,
}

impl CliRenderer {
    /// The display options.
    pub closed spec fn render_settings(&self) -> CliRenderSettings {
        self.settings
    }

    /// The frame on the screen, as the driver keeps it.
    pub closed spec fn driver(&self) -> TerminalDriver {
        self.terminal_driver
    }

    /// Frames drawn.
    pub closed spec fn frames(&self) -> u64 {
        self.frame_count
    }

    /// Lines of the last frame drawn.
    pub closed spec fn last_lines(&self) -> Option<usize> {
        self.last_frame_lines
    }

    /// A renderer with the default settings.
    pub fn new() -> (r: Self)
        ensures
            r.render_settings() == (CliRenderSettings {
                show_debug_info: false,
                show_fps: true,
                show_animation_info: false,
                use_colors: true,
                double_buffering: true,
            }),
            r.frames() == 0,
            r.last_lines() is None,
            r.driver().shown() is None,
    {
        Self::with_settings(CliRenderSettings::default())
    }

    /// A renderer with `settings`.
    pub fn with_settings(settings: CliRenderSettings) -> (r: Self)
        ensures
            r.render_settings() == settings,
            r.frames() == 0,
            r.last_lines() is None,
            r.driver().shown() is None,
    {
        Self {
            _animation_manager: CliAnimationManager::new_default(),
            settings,
            frame_count: 0,
            frame_builder: FrameBuilder::new(),
            terminal_driver: TerminalDriver::new(),
            last_frame_lines: None,
        }
    }

    /// Frames drawn, lines of the last one and the settings.
    pub fn get_render_stats(&self) -> (s: RenderStats)
        ensures
            s.total_frames == self.frames(),
            s.last_frame_lines == self.last_lines(),
            s.settings == self.render_settings(),
    {
        RenderStats { total_frames: self.frame_count, last_frame_lines: self.last_frame_lines, settings: self.settings }
    }

    /// The frame-rate line that follows the panel: `fps_line` when the
    /// settings show the frame rate and one is given, none otherwise.
    pub open spec fn fps_text(show_fps: bool, fps_line: Option<String>) -> Seq<Seq<char>> {
        match fps_line {
            Some(l) => if show_fps { seq![l@] } else { Seq::empty() },
            None => Seq::empty(),
        }
    }

    /// The next frame for `core` (see `frame_text`), followed by the
    /// frame-rate line `fps_line` when the settings show the frame rate (the
    /// program measures the rate and writes the line), to be shown in full
    /// (`clear`) or line by line; the frame is counted and its length,
    /// frame-rate line included, noted.
    pub fn prepare_frame(&mut self, core: &CoreGameState, clear: bool, fps_line: Option<String>) -> (f: Frame)
        requires
            old(self).frames() < u64::MAX,
            core.current_piece matches Some(p) ==> piece_ok(p),
        ensures
            texts(f.lines@) == frame_text(*core, old(self).render_settings().use_colors)
                + Self::fps_text(old(self).render_settings().show_fps, fps_line),
            f.requires_clear == clear,
            final(self).frames() == old(self).frames() + 1,
            final(self).last_lines() == Some(f.lines@.len() as usize),
            final(self).render_settings() == old(self).render_settings(),
            final(self).driver() == old(self).driver(),
            after_frame(*old(self), *final(self), *core, fps_line),
    {
        self.frame_count = self.frame_count + 1;
        let mut frame = self.frame_builder.build_full_frame(core, &self.settings);
        let ghost base = frame.lines@;
        if self.settings.show_fps {
            match fps_line {
                Some(l) => {
                    frame.lines.push(l);
                    proof {
                        assert(texts(frame.lines@) =~= texts(base) + Self::fps_text(self.settings.show_fps, fps_line));
                    }
                },
                None => {
                    assert(texts(frame.lines@) =~= texts(base) + Self::fps_text(self.settings.show_fps, fps_line));
                },
            }
        } else {
            assert(texts(frame.lines@) =~= texts(base) + Self::fps_text(self.settings.show_fps, fps_line));
        }
        frame.set_requires_clear(clear);
        self.last_frame_lines = Some(frame.lines.len());
        frame
    }
}

/// `b` is `a` after `prepare_frame` for the state `core` with the
/// frame-rate line `fps_line`: one more frame, whose length (the frame text
/// and the frame-rate line shown, if any) is noted, and the same settings.
pub open spec fn after_frame(a: CliRenderer, b: CliRenderer, core: CoreGameState, fps_line: Option<String>) -> bool {
    &&& b.frames() == a.frames() + 1
    &&& b.last_lines() == Some((frame_text(core, a.render_settings().use_colors).len()
        + CliRenderer::fps_text(a.render_settings().show_fps, fps_line).len()) as usize)
    &&& b.render_settings() == a.render_settings()
}

/// Every frame has 33 lines (a border, the 20 board rows, a border and 11
/// panel lines), and one more when the frame-rate line is shown.
pub proof fn lemma_frame_lines(core: CoreGameState, use_colors: bool, show_fps: bool, fps_line: Option<String>)
    ensures
        frame_text(core, use_colors).len() == 33,
        CliRenderer::fps_text(show_fps, fps_line).len() == if show_fps && fps_line is Some { 1int } else { 0int },
{
}

/// After `n` frames from a renderer just made (`run[0]`, as `new` or
/// `with_settings` give it) the frame count is `n`, the settings are those it
/// was made with, and the noted length is none when `n` is 0 and otherwise
/// that of the last frame: 33 lines, or 34 with the frame-rate line shown.
pub proof fn lemma_frames_after_run(run: Seq<CliRenderer>, cores: Seq<CoreGameState>, fps: Seq<Option<String>>)
    requires
        run.len() == cores.len() + 1,
        fps.len() == cores.len(),
        run[0].frames() == 0,
        run[0].last_lines() is None,
        forall|i: int| 0 <= i < cores.len() ==> #[trigger] after_frame(run[i], run[i + 1], cores[i], fps[i]),
    ensures
        run.last().frames() == cores.len(),
        run.last().render_settings() == run[0].render_settings(),
        cores.len() == 0 ==> run.last().last_lines() is None,
        cores.len() > 0 ==> run.last().last_lines() == Some(
            (33 + if run[0].render_settings().show_fps && fps.last() is Some { 1int } else { 0int }) as usize,
        ),
    decreases cores.len(),
{
    if cores.len() > 0 {
        let n = cores.len() - 1;
        lemma_frames_after_run(run.drop_last(), cores.drop_last(), fps.drop_last());
        assert(run.drop_last().last() == run[n]);
        assert(after_frame(run[n], run[n + 1], cores[n], fps[n]));
        lemma_frame_lines(cores[n], run[n].render_settings().use_colors, run[n].render_settings().show_fps, fps[n]);
    }
}

} // verus!
