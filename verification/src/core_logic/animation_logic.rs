//! Animation states as plain data, and the pure functions that advance them:
//! line blinks, push-downs of grey lines and erase-line steps.  Times are
//! milliseconds.
use vstd::prelude::*;
use crate::config::{BLINK_ANIMATION_STEP_MS, BLINK_COUNT_MAX, PUSH_DOWN_STEP_DURATION_MS};

verus! {

/// Interval between two erase-line steps, in milliseconds.
pub const ERASE_INTERVAL_MS: u64 = 120;

/// Kind of an animation.
#[derive(Debug, Clone, Copy, PartialEq, Eq, Structural)]
pub enum AnimationType {
    LineBlink,
    PushDown,
    EraseLine,
}

/// Extra data of an animation: the grey line of a push-down and the chain
/// bonus an erase-line has consumed.
#[derive(Debug, Clone, PartialEq, Eq, Structural)]
pub struct AnimationMetadata {
    pub gray_line_y: Option<usize>,
    pub chain_bonus_consumed: usize,
}

impl Default for AnimationMetadata {
    fn default() -> (m: Self)
        ensures
            m.gray_line_y is None,
            m.chain_bonus_consumed == 0,
    {
        Self { gray_line_y: None, chain_bonus_consumed: 0 }
    }
}

/// A running animation.
#[derive(Debug, Clone, PartialEq)]
pub struct AnimationState {
    pub animation_type: AnimationType,
    pub start_time_ms: u64,
    pub lines: Vec<usize>,
    pub current_step: usize,
    pub is_completed: bool,
    pub metadata: AnimationMetadata,
}

/// Outcome of advancing a line blink.
#[derive(Debug, Clone, PartialEq, Eq, Structural)]
pub struct LineBlinkUpdateResult {
    pub is_completed: bool,
    pub current_count: usize,
    pub is_visible: bool,
}

/// Outcome of advancing a push-down.
#[derive(Debug, Clone, PartialEq, Eq, Structural)]
pub struct PushDownUpdateResult {
    pub is_completed: bool,
    pub should_move: bool,
}

/// Outcome of advancing an erase-line animation.
#[derive(Debug, Clone, PartialEq, Eq, Structural)]
pub struct EraseLineUpdateResult {
    pub is_completed: bool,
    pub lines_erased: u32,
    pub should_process_step: bool,
}

/// Outcome of advancing a list of animations.
#[derive(Debug, Clone)]
pub struct AnimationUpdateResult {
    pub updated_animations: Vec<AnimationState>,
    pub completed_line_blinks: Vec<Vec<usize>>,
    pub completed_push_downs: Vec<usize>,
    pub completed_erase_lines: Vec<(Vec<usize>, u32)>,
}

/// Time passed since `start`, or zero when `now` lies before it.
pub open spec fn elapsed_since(start: u64, now: u64) -> int {
    if now >= start { now - start } else { 0 }
}

/// Number of whole blink steps since `start`.
pub open spec fn blink_count(start: u64, now: u64) -> usize {
    (elapsed_since(start, now) / (BLINK_ANIMATION_STEP_MS as int)) as usize
}

/// Advances a line blink: the number of whole blink steps since the start,
/// visible on even steps, complete after the last step.
pub fn update_line_blink_state(lines: Vec<usize>, start_time_ms: u64, current_time_ms: u64) -> (r: LineBlinkUpdateResult)
    ensures
        r.current_count == blink_count(start_time_ms, current_time_ms),
        r.is_completed == (r.current_count >= BLINK_COUNT_MAX),
        r.is_visible == (r.current_count % 2 == 0),
{
    let elapsed_ms = current_time_ms.saturating_sub(start_time_ms);
    let blink_step_ms = BLINK_ANIMATION_STEP_MS;
    let max_count = BLINK_COUNT_MAX;
    let count = (elapsed_ms / blink_step_ms) as usize;
    LineBlinkUpdateResult { is_completed: count >= max_count, current_count: count, is_visible: (count % 2) == 0 }
}

/// Advances a push-down: it should move once its step time has passed; its
/// completion depends on the board and is never reported here.
pub fn update_push_down_state(gray_line_y: usize, start_time_ms: u64, current_time_ms: u64) -> (r: PushDownUpdateResult)
    ensures
        !r.is_completed,
        r.should_move == (elapsed_since(start_time_ms, current_time_ms) >= PUSH_DOWN_STEP_DURATION_MS),
{
    let elapsed_ms = current_time_ms.saturating_sub(start_time_ms);
    let step_duration_ms = PUSH_DOWN_STEP_DURATION_MS;
    PushDownUpdateResult { is_completed: false, should_move: elapsed_ms >= step_duration_ms }
}

/// Number of erase-line steps due since `start`.
pub open spec fn expected_erase_step(start: u64, now: u64) -> usize {
    (elapsed_since(start, now) / (ERASE_INTERVAL_MS as int)) as usize
}

/// Advances an erase-line animation: complete once every target line has
/// been handled, a step is due when more steps have come due than were made.
pub fn update_erase_line_state(
    target_lines: Vec<usize>,
    current_step: usize,
    start_time_ms: u64,
    current_time_ms: u64,
) -> (r: EraseLineUpdateResult)
    ensures
        r.is_completed == (current_step >= target_lines@.len()),
        r.lines_erased == current_step as u32,
        r.should_process_step == (expected_erase_step(start_time_ms, current_time_ms) > current_step),
{
    let elapsed_ms = current_time_ms.saturating_sub(start_time_ms);
    let erase_interval_ms = ERASE_INTERVAL_MS;
    let expected_step = (elapsed_ms / erase_interval_ms) as usize;
    let should_process_step = expected_step > current_step;
    let is_completed = current_step >= target_lines.len();
    EraseLineUpdateResult { is_completed, lines_erased: current_step as u32, should_process_step }
}

/// The grey line of a push-down, row 0 when it has none.
pub open spec fn gray_line_of(a: AnimationState) -> usize {
    match a.metadata.gray_line_y {
        Some(y) => y,
        None => 0,
    }
}

/// The four lists of an update outcome.
pub type UpdateLists = (Seq<AnimationState>, Seq<Vec<usize>>, Seq<usize>, Seq<(Vec<usize>, u32)>);

/// Advancing the animations `anims` to time `now`, one after the other: the
/// animations that go on, the line lists of the blinks that ended, the grey
/// lines due to move and the erase-lines that are done.
pub open spec fn update_all_spec(anims: Seq<AnimationState>, now: u64) -> UpdateLists
    decreases anims.len(),
{
    if anims.len() == 0 {
        (Seq::empty(), Seq::empty(), Seq::empty(), Seq::empty())
    } else {
        let (u, b, p, e) = update_all_spec(anims.drop_last(), now);
        let a = anims.last();
        match a.animation_type {
            AnimationType::LineBlink => {
                let count = blink_count(a.start_time_ms, now);
                if count >= BLINK_COUNT_MAX {
                    (u, b.push(a.lines), p, e)
                } else {
                    (u.push(AnimationState { current_step: count, ..a }), b, p, e)
                }
            },
            AnimationType::PushDown => {
                if elapsed_since(a.start_time_ms, now) >= PUSH_DOWN_STEP_DURATION_MS {
                    (u, b, p.push(gray_line_of(a)), e)
                } else {
                    (u.push(a), b, p, e)
                }
            },
            AnimationType::EraseLine => {
                if a.current_step >= a.lines@.len() {
                    (u, b, p, e.push((a.lines, a.current_step as u32)))
                } else if expected_erase_step(a.start_time_ms, now) > a.current_step {
                    (u.push(AnimationState { current_step: (a.current_step + 1) as usize, ..a }), b, p, e)
                } else {
                    (u.push(a), b, p, e)
                }
            },
        }
    }
}

/// Advancing animations never makes more of them: those that go on and
/// those that finished together are as many as there were.
pub proof fn lemma_update_all_len(anims: Seq<AnimationState>, now: u64)
    ensures
        ({
            let (u, b, p, e) = update_all_spec(anims, now);
            u.len() + b.len() + p.len() + e.len() == anims.len()
        }),
    decreases anims.len(),
{
    if anims.len() > 0 {
        lemma_update_all_len(anims.drop_last(), now);
    }
}

/// Advances every animation of `animations` to `current_time_ms`, in order.
/// A blink past its last step ends and hands back its lines, a push-down
/// whose step is due hands back its grey line (the board decides when it is
/// done), an erase-line that has handled all its lines hands back its lines
/// and the number erased; the others go on, with their step brought up to
/// date.
pub fn update_all_animation_states(animations: Vec<AnimationState>, current_time_ms: u64) -> (result: AnimationUpdateResult)
    ensures
        (result.updated_animations@, result.completed_line_blinks@, result.completed_push_downs@,
            result.completed_erase_lines@) == update_all_spec(animations@, current_time_ms),
{
    let ghost orig = animations@;
    let mut pending = animations;
    let mut result = AnimationUpdateResult {
        updated_animations: Vec::new(),
        completed_line_blinks: Vec::new(),
        completed_push_downs: Vec::new(),
        completed_erase_lines: Vec::new(),
    };
    let ghost mut i: int = 0;
    assert(orig.take(0) =~= Seq::<AnimationState>::empty());
    while pending.len() > 0
        invariant
            0 <= i <= orig.len(),
            pending@ == orig.subrange(i, orig.len() as int),
            (result.updated_animations@, result.completed_line_blinks@, result.completed_push_downs@,
                result.completed_erase_lines@) == update_all_spec(orig.take(i), current_time_ms),
        decreases pending@.len(),
    {
        let animation = pending.remove(0);
        proof {
            assert(animation == orig[i]);
            assert(orig.take(i + 1).drop_last() =~= orig.take(i));
            assert(orig.take(i + 1).last() == orig[i]);
        }
        match animation.animation_type {
            AnimationType::LineBlink => {
                let update_result = update_line_blink_state(
                    animation.lines.clone(),
                    animation.start_time_ms,
                    current_time_ms,
                );
                if update_result.is_completed {
                    result.completed_line_blinks.push(animation.lines);
                } else {
                    let mut updated_animation = animation;
                    updated_animation.current_step = update_result.current_count;
                    result.updated_animations.push(updated_animation);
                }
            },
            AnimationType::PushDown => {
                let gray_line_y = match animation.metadata.gray_line_y {
                    Some(y) => y,
                    None => 0,
                };
                let update_result = update_push_down_state(gray_line_y, animation.start_time_ms, current_time_ms);
                if update_result.should_move {
                    result.completed_push_downs.push(gray_line_y);
                } else {
                    result.updated_animations.push(animation);
                }
            },
            AnimationType::EraseLine => {
                let update_result = update_erase_line_state(
                    animation.lines.clone(),
                    animation.current_step,
                    animation.start_time_ms,
                    current_time_ms,
                );
                if update_result.is_completed {
                    result.completed_erase_lines.push((animation.lines, update_result.lines_erased));
                } else if update_result.should_process_step {
                    let mut updated_animation = animation;
                    updated_animation.current_step = updated_animation.current_step + 1;
                    result.updated_animations.push(updated_animation);
                } else {
                    result.updated_animations.push(animation);
                }
            },
        }
        proof {
            i = i + 1;
        }
    }
    proof {
        assert(orig.take(i) =~= orig);
    }
    result
}

/// A new line blink over `lines`, started at `start_time_ms`.
pub fn create_line_blink_animation(lines: Vec<usize>, start_time_ms: u64) -> (a: AnimationState)
    ensures
        a == (AnimationState {
            animation_type: AnimationType::LineBlink,
            start_time_ms,
            lines,
            current_step: 0,
            is_completed: false,
            metadata: AnimationMetadata { gray_line_y: None, chain_bonus_consumed: 0 },
        }),
{
    AnimationState {
        animation_type: AnimationType::LineBlink,
        start_time_ms,
        lines,
        current_step: 0,
        is_completed: false,
        metadata: AnimationMetadata::default(),
    }
}

/// A new push-down of the grey line `gray_line_y`, started at `start_time_ms`.
pub fn create_push_down_animation(gray_line_y: usize, start_time_ms: u64) -> (a: AnimationState)
    ensures
        a.animation_type == AnimationType::PushDown,
        a.start_time_ms == start_time_ms,
        a.lines@ == seq![gray_line_y],
        a.current_step == 0,
        !a.is_completed,
        a.metadata == (AnimationMetadata { gray_line_y: Some(gray_line_y), chain_bonus_consumed: 0 }),
{
    AnimationState {
        animation_type: AnimationType::PushDown,
        start_time_ms,
        lines: vec![gray_line_y],
        current_step: 0,
        is_completed: false,
        metadata: AnimationMetadata { gray_line_y: Some(gray_line_y), chain_bonus_consumed: 0 },
    }
}

/// A new erase-line animation over `target_lines`, started at `start_time_ms`.
pub fn create_erase_line_animation(target_lines: Vec<usize>, start_time_ms: u64) -> (a: AnimationState)
    ensures
        a == (AnimationState {
            animation_type: AnimationType::EraseLine,
            start_time_ms,
            lines: target_lines,
            current_step: 0,
            is_completed: false,
            metadata: AnimationMetadata { gray_line_y: None, chain_bonus_consumed: 0 },
        }),
{
    AnimationState {
        animation_type: AnimationType::EraseLine,
        start_time_ms,
        lines: target_lines,
        current_step: 0,
        is_completed: false,
        metadata: AnimationMetadata::default(),
    }
}

/// Index of the first line blink among `anims` that covers line `y`.
pub open spec fn first_blink_covering(anims: Seq<AnimationState>, y: usize, k: int) -> bool {
    &&& 0 <= k < anims.len()
    &&& anims[k].animation_type == AnimationType::LineBlink
    &&& anims[k].lines@.contains(y)
    &&& forall|j: int| 0 <= j < k ==> !((#[trigger] anims[j]).animation_type == AnimationType::LineBlink
            && anims[j].lines@.contains(y))
}

/// Whether line `y` is drawn at `now`: by the first line blink covering it,
/// drawn on even blink steps; always drawn when no blink covers it.
pub open spec fn line_visible(anims: Seq<AnimationState>, y: usize, now: u64) -> bool {
    if exists|k: int| first_blink_covering(anims, y, k) {
        let k = choose|k: int| first_blink_covering(anims, y, k);
        blink_count(anims[k].start_time_ms, now) % 2 == 0
    } else {
        true
    }
}

/// Whether line `line_y` is drawn at `current_time_ms`: the first line blink
/// covering it decides (drawn on even blink steps); a line no blink covers
/// is always drawn.
pub fn should_render_line_with_animation(line_y: usize, animations: &[AnimationState], current_time_ms: u64) -> (r: bool)
    ensures
        (exists|k: int| first_blink_covering(animations@, line_y, k))
            ==> (forall|k: int| first_blink_covering(animations@, line_y, k)
                ==> r == (blink_count(animations@[k].start_time_ms, current_time_ms) % 2 == 0)),
        !(exists|k: int| first_blink_covering(animations@, line_y, k)) ==> r,
        r == line_visible(animations@, line_y, current_time_ms),
{
    let mut i: usize = 0;
    while i < animations.len()
        invariant
            i <= animations@.len(),
            forall|j: int| 0 <= j < i ==> !((#[trigger] animations@[j]).animation_type == AnimationType::LineBlink
                && animations@[j].lines@.contains(line_y)),
        decreases animations@.len() - i,
    {
        let animation = &animations[i];
        if animation.animation_type == AnimationType::LineBlink && vec_contains(&animation.lines, line_y) {
            let blink_result = update_line_blink_state(
                animation.lines.clone(),
                animation.start_time_ms,
                current_time_ms,
            );
            proof {
                assert(first_blink_covering(animations@, line_y, i as int));
                assert forall|k: int| first_blink_covering(animations@, line_y, k) implies k == i by {
                    if k < i {
                    } else if k > i {
                        assert(!(animations@[i as int].animation_type == AnimationType::LineBlink
                            && animations@[i as int].lines@.contains(line_y)));
                    }
                }
            }
            return blink_result.is_visible;
        }
        i += 1;
    }
    true
}

/// Whether `v` holds `x`.
fn vec_contains(v: &Vec<usize>, x: usize) -> (r: bool)
    ensures
        r == v@.contains(x),
{
    let mut i: usize = 0;
    while i < v.len()
        invariant
            i <= v@.len(),
            forall|j: int| 0 <= j < i ==> v@[j] != x,
        decreases v@.len() - i,
    {
        if v[i] == x {
            return true;
        }
        i += 1;
    }
    false
}

} // verus!
