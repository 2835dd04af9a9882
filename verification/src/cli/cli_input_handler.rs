//! Key repeat of the terminal front end: a held movement key repeats after
//! a delay, then at a fixed interval.  The program reads the keys and the
//! clock; the rules of what to pass on and when to repeat are here.
use vstd::prelude::*;
use crate::game_input::GameInput;

verus! {

/// Delay before a held key first repeats, in milliseconds.
pub const REPEAT_DELAY_MS: u64 = 500;

/// Interval between repeats of a held key, in milliseconds.
pub const REPEAT_INTERVAL_MS: u64 = 50;

/// When a key went down and last repeated, and whether it repeats yet.
#[derive(Debug, Clone, Copy, PartialEq, Eq, Structural)]
pub struct KeyState {
    pub pressed_at_ms: u64,
    pub last_repeat_ms: u64,
    pub is_repeating: bool,
}

/// What to do with a command that was read.
#[derive(Debug, Clone, Copy, PartialEq, Eq, Structural)]
pub enum InputDisposition {
    /// Leave the program.
    Exit,
    /// Drop the command.
    Ignore,
    /// Pass the command to the game.
    Apply,
}

/// Figures of the key handling.
#[derive(Debug, Clone, PartialEq, Eq, Structural)]
pub struct CliInputStats {
    pub total_inputs: u64,
    pub active_keys: usize,
    pub last_input_elapsed_ms: u64,
}

/// Key repeat state and input counts.
#[derive(Debug)]
pub struct CliInputHandler {
    key_states: Vec<(GameInput, KeyState)>,
    repeat_delay_ms: u64,
    repeat_interval_ms: u64,
    total_inputs: u64,
    last_input_time_ms: Option<u64>,
}

/// Commands that repeat while held: the moves and the soft drop.
pub open spec fn repeatable(input: GameInput) -> bool {
    input == GameInput::MoveLeft || input == GameInput::MoveRight || input == GameInput::SoftDrop
}

/// No command has two entries.
pub open spec fn keys_distinct(k: Seq<(GameInput, KeyState)>) -> bool {
    forall|i: int, j: int| 0 <= i < j < k.len() ==> #[trigger] k[i].0 != #[trigger] k[j].0
}

/// `k` with the entry of `input` set to `st`: replaced where it is, added at
/// the end otherwise.
pub open spec fn keys_set(k: Seq<(GameInput, KeyState)>, input: GameInput, st: KeyState) -> Seq<(GameInput, KeyState)> {
    if exists|i: int| 0 <= i < k.len() && k[i].0 == input {
        let i = choose|i: int| 0 <= i < k.len() && k[i].0 == input;
        k.update(i, (input, st))
    } else {
        k.push((input, st))
    }
}

/// One held key at time `now`: it starts repeating once the delay has
/// passed since it went down, then repeats whenever the interval has passed
/// since its last repeat.  Gives the new state and whether it repeats now.
pub open spec fn repeat_step(st: KeyState, now: u64, delay: u64, interval: u64) -> (KeyState, bool) {
    let elapsed = if now >= st.pressed_at_ms { now - st.pressed_at_ms } else { 0 };
    if !st.is_repeating && elapsed >= delay {
        (KeyState { is_repeating: true, last_repeat_ms: now, ..st }, true)
    } else if st.is_repeating {
        let since = if now >= st.last_repeat_ms { now - st.last_repeat_ms } else { 0 };
        if since >= interval {
            (KeyState { last_repeat_ms: now, ..st }, true)
        } else {
            (st, false)
        }
    } else {
        (st, false)
    }
}

/// The commands that repeat at `now` among the first `n` held keys, in
/// order.
pub open spec fn repeats_upto(k: Seq<(GameInput, KeyState)>, now: u64, delay: u64, interval: u64, n: int) -> Seq<GameInput>
    decreases n,
{
    if n <= 0 {
        Seq::empty()
    } else {
        let prev = repeats_upto(k, now, delay, interval, n - 1);
        if repeat_step(k[n - 1].1, now, delay, interval).1 { prev.push(k[n - 1].0) } else { prev }
    }
}

impl CliInputHandler {
    /// The held keys with their states.
    pub closed spec fn keys(&self) -> Seq<(GameInput, KeyState)> {
        self.key_states@
    }

    /// Delay before the first repeat.
    pub closed spec fn delay(&self) -> u64 {
        self.repeat_delay_ms
    }

    /// Interval between repeats.
    pub closed spec fn interval(&self) -> u64 {
        self.repeat_interval_ms
    }

    /// Number of commands read.
    pub closed spec fn inputs(&self) -> u64 {
        self.total_inputs
    }

    /// When the last command was read.
    pub closed spec fn last_input(&self) -> Option<u64> {
        self.last_input_time_ms
    }

    /// No key held, no command read; repeats after 500 ms, then every 50 ms.
    pub fn new() -> (h: Self)
        ensures
            h.keys().len() == 0,
            h.delay() == REPEAT_DELAY_MS,
            h.interval() == REPEAT_INTERVAL_MS,
            h.inputs() == 0,
            h.last_input() is None,
    {
        Self {
            key_states: Vec::new(),
            repeat_delay_ms: REPEAT_DELAY_MS,
            repeat_interval_ms: REPEAT_INTERVAL_MS,
            total_inputs: 0,
            last_input_time_ms: None,
        }
    }

    /// Whether `input` repeats while held.
    pub fn is_repeatable_key(&self, input: &GameInput) -> (r: bool)
        ensures
            r == repeatable(*input),
    {
        match input {
            GameInput::MoveLeft | GameInput::MoveRight | GameInput::SoftDrop => true,
            _ => false,
        }
    }

    /// A command read at `now_ms`: counted and timed; Quit leaves the
    /// program and Pause is dropped; any other command goes to the game, and
    /// a repeatable one starts being held.
    pub fn register_input(&mut self, input: GameInput, now_ms: u64) -> (d: InputDisposition)
        requires
            old(self).inputs() < u64::MAX,
            keys_distinct(old(self).keys()),
        ensures
            final(self).inputs() == old(self).inputs() + 1,
            final(self).last_input() == Some(now_ms),
            final(self).delay() == old(self).delay(),
            final(self).interval() == old(self).interval(),
            keys_distinct(final(self).keys()),
            input == GameInput::Quit ==> d == InputDisposition::Exit && final(self).keys() == old(self).keys(),
            input == GameInput::Pause ==> d == InputDisposition::Ignore && final(self).keys() == old(self).keys(),
            input != GameInput::Quit && input != GameInput::Pause ==> {
                &&& d == InputDisposition::Apply
                &&& final(self).keys() == if repeatable(input) {
                    keys_set(old(self).keys(), input, KeyState { pressed_at_ms: now_ms, last_repeat_ms: now_ms, is_repeating: false })
                } else {
                    old(self).keys()
                }
            },
    {
        self.total_inputs = self.total_inputs + 1;
        self.last_input_time_ms = Some(now_ms);
        match input {
            GameInput::Quit => {
                return InputDisposition::Exit;
            },
            GameInput::Pause => {
                return InputDisposition::Ignore;
            },
            _ => {},
        }
        if self.is_repeatable_key(&input) {
            self.hold_key(input, KeyState { pressed_at_ms: now_ms, last_repeat_ms: now_ms, is_repeating: false });
        }
        InputDisposition::Apply
    }

    /// Sets the state of `input`, replacing its entry or adding one.
    fn hold_key(&mut self, input: GameInput, st: KeyState)
        requires
            keys_distinct(old(self).keys()),
        ensures
            final(self).keys() == keys_set(old(self).keys(), input, st),
            keys_distinct(final(self).keys()),
            final(self).inputs() == old(self).inputs(),
            final(self).last_input() == old(self).last_input(),
            final(self).delay() == old(self).delay(),
            final(self).interval() == old(self).interval(),
    {
        let mut i: usize = 0;
        while i < self.key_states.len()
            invariant
                i <= self.key_states@.len(),
                self.key_states@ == old(self).keys(),
                self.total_inputs == old(self).inputs(),
                self.last_input_time_ms == old(self).last_input(),
                self.repeat_delay_ms == old(self).delay(),
                self.repeat_interval_ms == old(self).interval(),
                keys_distinct(old(self).keys()),
                forall|j: int| 0 <= j < i ==> self.key_states@[j].0 != input,
            decreases self.key_states@.len() - i,
        {
            if self.key_states[i].0 == input {
                proof {
                    let k = old(self).keys();
                    assert(exists|j: int| 0 <= j < k.len() && k[j].0 == input);
                    let c = choose|j: int| 0 <= j < k.len() && k[j].0 == input;
                    if c != i {
                        if c < i {
                            assert(k[c].0 != k[i as int].0);
                        } else {
                            assert(k[i as int].0 != k[c].0);
                        }
                    }
                }
                self.key_states.set(i, (input, st));
                proof {
                    assert(self.key_states@ =~= keys_set(old(self).keys(), input, st));
                }
                return;
            }
            i += 1;
        }
        self.key_states.push((input, st));
    }

    /// The held keys due to repeat at `now_ms`, in the order they were first
    /// pressed (see `repeat_step`); each key's state is brought up to date.
    pub fn key_repeats(&mut self, now_ms: u64) -> (r: Vec<GameInput>)
        ensures
            r@ == repeats_upto(old(self).keys(), now_ms, old(self).delay(), old(self).interval(), old(self).keys().len() as int),
            final(self).keys().len() == old(self).keys().len(),
            forall|i: int| 0 <= i < old(self).keys().len() ==> #[trigger] final(self).keys()[i] == (
                old(self).keys()[i].0,
                repeat_step(old(self).keys()[i].1, now_ms, old(self).delay(), old(self).interval()).0,
            ),
            final(self).inputs() == old(self).inputs(),
            final(self).last_input() == old(self).last_input(),
            final(self).delay() == old(self).delay(),
            final(self).interval() == old(self).interval(),
    {
        let ghost k0 = self.key_states@;
        let mut keys_to_repeat: Vec<GameInput> = Vec::new();
        let mut i: usize = 0;
        while i < self.key_states.len()
            invariant
                i <= self.key_states@.len(),
                self.key_states@.len() == k0.len(),
                k0 == old(self).keys(),
                self.total_inputs == old(self).inputs(),
                self.last_input_time_ms == old(self).last_input(),
                self.repeat_delay_ms == old(self).delay(),
                self.repeat_interval_ms == old(self).interval(),
                forall|j: int| i <= j < k0.len() ==> #[trigger] self.key_states@[j] == k0[j],
                forall|j: int| 0 <= j < i ==> #[trigger] self.key_states@[j] == (
                    k0[j].0,
                    repeat_step(k0[j].1, now_ms, self.repeat_delay_ms, self.repeat_interval_ms).0,
                ),
                keys_to_repeat@ == repeats_upto(k0, now_ms, self.repeat_delay_ms, self.repeat_interval_ms, i as int),
            decreases self.key_states@.len() - i,
        {
            let (input, st) = self.key_states[i];
            let elapsed = if now_ms >= st.pressed_at_ms { now_ms - st.pressed_at_ms } else { 0 };
            let mut new_st = st;
            let mut repeat = false;
            if !st.is_repeating && elapsed >= self.repeat_delay_ms {
                new_st.is_repeating = true;
                new_st.last_repeat_ms = now_ms;
                repeat = true;
            } else if st.is_repeating {
                let since_last_repeat = if now_ms >= st.last_repeat_ms { now_ms - st.last_repeat_ms } else { 0 };
                if since_last_repeat >= self.repeat_interval_ms {
                    new_st.last_repeat_ms = now_ms;
                    repeat = true;
                }
            }
            self.key_states.set(i, (input, new_st));
            if repeat {
                keys_to_repeat.push(input);
            }
            i += 1;
        }
        keys_to_repeat
    }

    /// Commands read so far, keys held, and the time since the last command
    /// (zero when none was read, or when `now_ms` lies before it).
    pub fn get_input_stats(&self, now_ms: u64) -> (s: CliInputStats)
        ensures
            s.total_inputs == self.inputs(),
            s.active_keys == self.keys().len(),
            s.last_input_elapsed_ms == match self.last_input() {
                Some(t) => if now_ms >= t { (now_ms - t) as u64 } else { 0 },
                None => 0,
            },
    {
        let elapsed = match self.last_input_time_ms {
            Some(t) => if now_ms >= t { now_ms - t } else { 0 },
            None => 0,
        };
        CliInputStats { total_inputs: self.total_inputs, active_keys: self.key_states.len(), last_input_elapsed_ms: elapsed }
    }

    /// Forgets every held key.
    pub fn reset_key_states(&mut self)
        ensures
            final(self).keys().len() == 0,
            final(self).inputs() == old(self).inputs(),
            final(self).last_input() == old(self).last_input(),
            final(self).delay() == old(self).delay(),
            final(self).interval() == old(self).interval(),
    {
        self.key_states.clear();
    }
}

/// A key that went down at `pressed` and has not repeated does not repeat
/// before the delay has passed, and does once it has.
pub proof fn lemma_first_repeat_after_delay(st: KeyState, now: u64, delay: u64, interval: u64)
    requires
        !st.is_repeating,
        st.pressed_at_ms <= now,
    ensures
        repeat_step(st, now, delay, interval).1 == (now - st.pressed_at_ms >= delay),
{
}

/// A repeating key repeats again exactly when the interval has passed since
/// its last repeat, and then remembers `now` as its last repeat.
pub proof fn lemma_repeat_interval(st: KeyState, now: u64, delay: u64, interval: u64)
    requires
        st.is_repeating,
        st.last_repeat_ms <= now,
    ensures
        repeat_step(st, now, delay, interval).1 == (now - st.last_repeat_ms >= interval),
        repeat_step(st, now, delay, interval).1 ==> repeat_step(st, now, delay, interval).0.last_repeat_ms == now,
        repeat_step(st, now, delay, interval).0.is_repeating,
{
}

} // verus!
