//! Animation pacing of the terminal front end: frame timing and which lines
//! a blink hides, remembered per point in time.
use vstd::prelude::*;
use crate::core_logic::animation_logic::{AnimationState, AnimationType, should_render_line_with_animation, line_visible};
use crate::core_logic::game_state::CoreGameState;

verus! {

/// Frame timing and the lines drawn at the last point in time asked about.
#[derive(Debug)]
pub struct CliAnimationManager {
    target_fps: u32,
    frame_duration_ms: u64,
    last_render_time: u64,
    cached_visible_lines: Vec<bool>,
}

/// Frame rate figures of the animation manager.
#[derive(Debug, Clone, PartialEq, Eq, Structural)]
pub struct CliAnimationStats {
    pub target_fps: u32,
    pub frame_duration_ms: u32,
}

/// Kinds of the animations still running among the first `n` of `anims`,
/// each once, in the order they first appear.
pub open spec fn active_types(anims: Seq<AnimationState>, n: int) -> Seq<AnimationType>
    decreases n,
{
    if n <= 0 {
        Seq::empty()
    } else {
        let prev = active_types(anims, n - 1);
        let a = anims[n - 1];
        if !a.is_completed && !prev.contains(a.animation_type) { prev.push(a.animation_type) } else { prev }
    }
}

impl CliAnimationManager {
    /// The frame rate aimed at.
    pub closed spec fn fps(&self) -> u32 {
        self.target_fps
    }

    /// Length of a frame, in milliseconds.
    pub closed spec fn frame_ms(&self) -> u64 {
        self.frame_duration_ms
    }

    /// The point in time the remembered lines belong to.
    pub closed spec fn cache_time(&self) -> u64 {
        self.last_render_time
    }

    /// The remembered visibility of the lines.
    pub closed spec fn cache(&self) -> Seq<bool> {
        self.cached_visible_lines@
    }

    /// A manager aiming at `target_fps` frames per second, with every line
    /// remembered as drawn at time 0.
    pub fn new(target_fps: u32) -> (m: Self)
        requires
            target_fps > 0,
        ensures
            m.fps() == target_fps,
            m.frame_ms() == 1000int / (target_fps as int),
            m.cache_time() == 0,
            m.cache() == Seq::new(20, |i: int| true),
    {
        let cached_visible_lines = vec![true; 20];
        assert(cached_visible_lines@ =~= Seq::new(20, |i: int| true));
        Self {
            target_fps,
            frame_duration_ms: 1000 / target_fps as u64,
            last_render_time: 0,
            cached_visible_lines,
        }
    }

    /// A manager aiming at 60 frames per second.
    pub fn new_default() -> (m: Self)
        ensures
            m.fps() == 60,
            m.frame_ms() == 16,
            m.cache_time() == 0,
            m.cache() == Seq::new(20, |i: int| true),
    {
        Self::new(60)
    }

    /// Whether line `line_y` is drawn at `current_time_ms`.  The visibility
    /// of all lines is worked out from the running animations of
    /// `core_state` once per point in time and remembered; asked again at the
    /// same time, the remembered answer is given.  Lines below the board are
    /// always drawn.
    pub fn should_render_line(&mut self, line_y: usize, core_state: &CoreGameState, current_time_ms: u64) -> (r: bool)
        requires
            old(self).cache().len() == 20,
            core_state.wf(),
        ensures
            final(self).cache().len() == 20,
            final(self).cache_time() == current_time_ms,
            final(self).fps() == old(self).fps(),
            final(self).frame_ms() == old(self).frame_ms(),
            current_time_ms != old(self).cache_time() ==> final(self).cache()
                == Seq::new(20, |y: int| line_visible(core_state.animations@, y as usize, current_time_ms)),
            current_time_ms == old(self).cache_time() ==> final(self).cache() == old(self).cache(),
            r == if line_y < 20 { final(self).cache()[line_y as int] } else { true },
    {
        if current_time_ms != self.last_render_time {
            self.update_visibility_cache(core_state, current_time_ms);
            self.last_render_time = current_time_ms;
        }
        if line_y < self.cached_visible_lines.len() {
            self.cached_visible_lines[line_y]
        } else {
            true
        }
    }

    /// Whether a frame that took `frame_delta_ms` was shorter than a frame.
    pub fn should_limit_framerate(&self, frame_delta_ms: u64) -> (r: bool)
        ensures
            r == (frame_delta_ms < self.frame_ms()),
    {
        frame_delta_ms < self.frame_duration_ms
    }

    /// How long to wait to fill a frame that took `frame_delta_ms`; `None`
    /// when it took a whole frame or more.
    pub fn calculate_sleep_duration(&self, frame_delta_ms: u64) -> (r: Option<u64>)
        ensures
            frame_delta_ms < self.frame_ms() ==> r == Some((self.frame_ms() - frame_delta_ms) as u64),
            frame_delta_ms >= self.frame_ms() ==> r is None,
    {
        if frame_delta_ms < self.frame_duration_ms {
            Some(self.frame_duration_ms - frame_delta_ms)
        } else {
            None
        }
    }

    /// Kinds of the running animations of `core_state` that are not marked
    /// completed, each once, in order of first appearance.
    pub fn get_active_animations(&self, core_state: &CoreGameState) -> (r: Vec<AnimationType>)
        requires
            core_state.wf(),
        ensures
            r@ == active_types(core_state.animations@, core_state.animations_count as int),
    {
        let mut active_types_found: Vec<AnimationType> = Vec::new();
        let mut i: usize = 0;
        while i < core_state.animations_count
            invariant
                core_state.wf(),
                i <= core_state.animations_count,
                active_types_found@ == active_types(core_state.animations@, i as int),
            decreases core_state.animations_count - i,
        {
            let animation = &core_state.animations[i];
            if !animation.is_completed {
                if !type_listed(&active_types_found, animation.animation_type) {
                    active_types_found.push(animation.animation_type);
                }
            }
            i += 1;
        }
        active_types_found
    }

    /// Works out the visibility of every line at `current_time_ms`.
    fn update_visibility_cache(&mut self, core_state: &CoreGameState, current_time_ms: u64)
        requires
            old(self).cache().len() == 20,
            core_state.wf(),
        ensures
            final(self).cache() == Seq::new(20, |y: int| line_visible(core_state.animations@, y as usize, current_time_ms)),
            final(self).fps() == old(self).fps(),
            final(self).frame_ms() == old(self).frame_ms(),
            final(self).cache_time() == old(self).cache_time(),
    {
        let active_animations = core_state.animations.as_slice();
        let mut line_y: usize = 0;
        while line_y < self.cached_visible_lines.len()
            invariant
                self.cached_visible_lines@.len() == 20,
                active_animations@ == core_state.animations@,
                self.fps() == old(self).fps(),
                self.frame_ms() == old(self).frame_ms(),
                self.cache_time() == old(self).cache_time(),
                line_y <= 20,
                forall|y: int| 0 <= y < line_y ==> #[trigger] self.cached_visible_lines@[y]
                    == line_visible(core_state.animations@, y as usize, current_time_ms),
            decreases 20 - line_y,
        {
            let visible = should_render_line_with_animation(line_y, active_animations, current_time_ms);
            self.cached_visible_lines.set(line_y, visible);
            line_y += 1;
        }
        assert(self.cached_visible_lines@ =~= Seq::new(20, |y: int| line_visible(core_state.animations@, y as usize, current_time_ms)));
    }

    /// The frame rate aimed at and the length of a frame.
    pub fn get_performance_stats(&self) -> (s: CliAnimationStats)
        ensures
            s.target_fps == self.fps(),
            s.frame_duration_ms == self.frame_ms() as u32,
    {
        CliAnimationStats { target_fps: self.target_fps, frame_duration_ms: self.frame_duration_ms as u32 }
    }
}

/// Whether `v` holds `t`.
fn type_listed(v: &Vec<AnimationType>, t: AnimationType) -> (r: bool)
    ensures
        r == v@.contains(t),
{
    let mut i: usize = 0;
    while i < v.len()
        invariant
            i <= v@.len(),
            forall|j: int| 0 <= j < i ==> v@[j] != t,
        decreases v@.len() - i,
    {
        if v[i] == t {
            return true;
        }
        i += 1;
    }
    false
}

impl Default for CliAnimationManager {
    /// The manager aiming at 60 frames per second.
    fn default() -> (m: Self)
        ensures
            m.fps() == 60,
            m.frame_ms() == 16,
    {
        Self::new_default()
    }
}

} // verus!
