//! State of the terminal front end around a game: the game itself, what
//! needs redrawing, and frame and event counts.  The clock is read by the
//! program and handed in as milliseconds.
use vstd::prelude::*;
use crate::core_logic::animation_logic::AnimationType;
use crate::core_logic::game_state::{CoreGameEvent, CoreGameState, time_update_outcome};
use crate::core_logic::input_handler::{InputProcessResult, input_outcome, process_input, state_ok};
use crate::game_input::GameInput;

verus! {

/// What the next draw has to cover.
#[derive(Debug, Clone, PartialEq)]
pub struct CliRenderState {
    pub needs_full_redraw: bool,
    pub needs_board_redraw: bool,
    pub needs_ui_redraw: bool,
    pub active_animations: Vec<AnimationType>,
}

impl Default for CliRenderState {
    /// A full redraw pending, nothing else.
    fn default() -> (s: Self)
        ensures
            s.needs_full_redraw,
            !s.needs_board_redraw,
            !s.needs_ui_redraw,
            s.active_animations@.len() == 0,
    {
        Self { needs_full_redraw: true, needs_board_redraw: false, needs_ui_redraw: false, active_animations: Vec::new() }
    }
}

/// The render flags and animation list after `events`, in order: a started
/// animation is listed and needs the board redrawn, a finished one too, a
/// line clear or a mode change needs everything redrawn, a score change the
/// panel.
pub open spec fn render_after(f: (bool, bool, bool, Seq<AnimationType>), events: Seq<CoreGameEvent>) -> (bool, bool, bool, Seq<AnimationType>)
    decreases events.len(),
{
    if events.len() == 0 {
        f
    } else {
        let (full, board, ui, anims) = render_after(f, events.drop_last());
        match events.last() {
            CoreGameEvent::AnimationStarted { animation_type } => (full, true, ui, anims.push(animation_type)),
            CoreGameEvent::AnimationCompleted { .. } => (full, true, ui, anims),
            CoreGameEvent::LinesCleared { .. } => (true, board, ui, anims),
            CoreGameEvent::ScoreUpdated { .. } => (full, board, true, anims),
            CoreGameEvent::GameModeChanged { .. } => (true, board, ui, anims),
            _ => (full, board, ui, anims),
        }
    }
}

/// The render state as a tuple of its flags and animation list.
pub open spec fn render_tuple(r: CliRenderState) -> (bool, bool, bool, Seq<AnimationType>) {
    (r.needs_full_redraw, r.needs_board_redraw, r.needs_ui_redraw, r.active_animations@)
}

/// A game as the terminal front end holds it.
#[derive(Debug)]
pub struct CliGameState {
    pub core: CoreGameState,
    pub render_state: CliRenderState,
    pub frame_count: u64,
    pub input_event_count: u64,
}

impl CliGameState {
    /// A new game (see `CoreGameState::new`) with a full redraw pending and
    /// no frame or event counted.
    pub fn new() -> (s: Self)
        ensures
            s.core.wf(),
            s.core.game_mode == crate::core_logic::game_state::CoreGameMode::Title,
            s.core.board == crate::core_logic::game_state::empty_board(),
            s.core.current_board_height == 0,
            s.core.animations@.len() == 0,
            s.core.current_piece is None,
            s.core.score == 0,
            s.core.lines_cleared == 0,
            s.core.chain_bonus == 0,
            s.core.max_chains == (crate::core_logic::game_state::CoreColorMaxChains {
                red: 1,
                green: 1,
                blue: 1,
                cyan: 1,
                magenta: 1,
                yellow: 1,
                grey: 1,
            }),
            s.core.pieces_placed == 0,
            s.core.elapsed_time_ms == 0,
            !s.core.enable_erase_line,
            s.core.bag.contents().len() == 7,
            render_tuple(s.render_state) == (true, false, false, Seq::<AnimationType>::empty()),
            s.frame_count == 0,
            s.input_event_count == 0,
    {
        Self {
            core: CoreGameState::new(),
            render_state: CliRenderState::default(),
            frame_count: 0,
            input_event_count: 0,
        }
    }

    /// Advances the game to `current_time_ms` (see `time_update_outcome`),
    /// notes what needs redrawing and returns the events.
    pub fn update_animations(&mut self, current_time_ms: u64) -> (events: Vec<CoreGameEvent>)
        requires
            old(self).core.wf(),
        ensures
            exists|render: bool| time_update_outcome(old(self).core, current_time_ms, final(self).core, events@, render),
            render_tuple(final(self).render_state) == render_after(render_tuple(old(self).render_state), events@),
            final(self).frame_count == old(self).frame_count,
            final(self).input_event_count == old(self).input_event_count,
    {
        let mut core = CoreGameState::new();
        std::mem::swap(&mut core, &mut self.core);
        let update_result = core.update_with_time(current_time_ms);
        self.core = update_result.new_state;
        self.update_render_state_from_events(&update_result.events);
        update_result.events
    }

    /// Applies the command `input` at `current_time_ms` to the game (see
    /// `input_outcome`), notes what needs redrawing and returns the events.
    pub fn handle_input(&mut self, input: GameInput, current_time_ms: u64) -> (events: Vec<CoreGameEvent>)
        requires
            state_ok(old(self).core),
            old(self).core.pieces_placed < u32::MAX,
        ensures
            state_ok(final(self).core),
            exists|r: InputProcessResult| {
                &&& input_outcome(old(self).core, input, current_time_ms, r)
                &&& final(self).core == r.new_state
                &&& events@ == r.events@
            },
            render_tuple(final(self).render_state) == render_after(render_tuple(old(self).render_state), events@),
            final(self).frame_count == old(self).frame_count,
            final(self).input_event_count == old(self).input_event_count,
    {
        let mut core = CoreGameState::new();
        std::mem::swap(&mut core, &mut self.core);
        let input_result = process_input(core, input, current_time_ms);
        let ghost r = input_result;
        self.core = input_result.new_state;
        self.update_render_state_from_events(&input_result.events);
        proof {
            assert(input_outcome(old(self).core, input, current_time_ms, r));
        }
        input_result.events
    }

    /// Counts a frame; returns whether the frame rate is due to be measured
    /// again (every sixtieth frame).
    pub fn update_frame(&mut self) -> (fps_due: bool)
        requires
            old(self).frame_count < u64::MAX,
        ensures
            final(self).frame_count == old(self).frame_count + 1,
            fps_due == (final(self).frame_count % 60 == 0),
            final(self).core == old(self).core,
            final(self).render_state == old(self).render_state,
            final(self).input_event_count == old(self).input_event_count,
    {
        self.frame_count = self.frame_count + 1;
        self.frame_count % 60 == 0
    }

    /// Notes what the events call for (see `render_after`).
    fn update_render_state_from_events(&mut self, events: &Vec<CoreGameEvent>)
        ensures
            render_tuple(final(self).render_state) == render_after(render_tuple(old(self).render_state), events@),
            final(self).core == old(self).core,
            final(self).frame_count == old(self).frame_count,
            final(self).input_event_count == old(self).input_event_count,
    {
        let mut i: usize = 0;
        while i < events.len()
            invariant
                i <= events@.len(),
                render_tuple(self.render_state) == render_after(render_tuple(old(self).render_state), events@.take(i as int)),
                self.core == old(self).core,
                self.frame_count == old(self).frame_count,
                self.input_event_count == old(self).input_event_count,
            decreases events@.len() - i,
        {
            proof {
                assert(events@.take(i + 1).drop_last() =~= events@.take(i as int));
            }
            match &events[i] {
                CoreGameEvent::AnimationStarted { animation_type } => {
                    self.render_state.active_animations.push(*animation_type);
                    self.render_state.needs_board_redraw = true;
                },
                CoreGameEvent::AnimationCompleted { .. } => {
                    self.render_state.needs_board_redraw = true;
                },
                CoreGameEvent::LinesCleared { .. } => {
                    self.render_state.needs_full_redraw = true;
                },
                CoreGameEvent::ScoreUpdated { .. } => {
                    self.render_state.needs_ui_redraw = true;
                },
                CoreGameEvent::GameModeChanged { .. } => {
                    self.render_state.needs_full_redraw = true;
                },
                _ => {},
            }
            i += 1;
        }
        proof {
            assert(events@.take(events@.len() as int) =~= events@);
        }
    }

    /// Whether anything needs drawing: a pending redraw of any kind or a
    /// running animation.
    pub open spec fn needs_redraw_spec(&self) -> bool {
        self.render_state.needs_full_redraw || self.render_state.needs_board_redraw
            || self.render_state.needs_ui_redraw || self.core.animations_count > 0
    }

    /// Whether anything needs drawing (see `needs_redraw_spec`).
    pub fn needs_redraw(&self) -> (r: bool)
        ensures
            r == self.needs_redraw_spec(),
    {
        self.render_state.needs_full_redraw || self.render_state.needs_board_redraw
            || self.render_state.needs_ui_redraw || self.core.has_animations()
    }

    /// Clears the pending redraws after a draw.
    pub fn mark_rendered(&mut self)
        ensures
            !final(self).render_state.needs_full_redraw,
            !final(self).render_state.needs_board_redraw,
            !final(self).render_state.needs_ui_redraw,
            final(self).render_state.active_animations == old(self).render_state.active_animations,
            final(self).core == old(self).core,
            final(self).frame_count == old(self).frame_count,
            final(self).input_event_count == old(self).input_event_count,
    {
        self.render_state.needs_full_redraw = false;
        self.render_state.needs_board_redraw = false;
        self.render_state.needs_ui_redraw = false;
    }

    /// Counts an event handed in from outside and asks for a full redraw.
    pub fn process_game_event(&mut self, event: CoreGameEvent)
        requires
            old(self).input_event_count < u64::MAX,
        ensures
            final(self).input_event_count == old(self).input_event_count + 1,
            final(self).render_state.needs_full_redraw,
            final(self).render_state.needs_board_redraw == old(self).render_state.needs_board_redraw,
            final(self).render_state.needs_ui_redraw == old(self).render_state.needs_ui_redraw,
            final(self).render_state.active_animations == old(self).render_state.active_animations,
            final(self).core == old(self).core,
            final(self).frame_count == old(self).frame_count,
    {
        self.input_event_count = self.input_event_count + 1;
        self.render_state.needs_full_redraw = true;
    }
}

} // verus!
