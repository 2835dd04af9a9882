//! Device-independent player input: the game's commands, how keys map to
//! them, and a queue of commands handed in by a front end.
use vstd::prelude::*;
use std::collections::VecDeque;

verus! {

/// A command of the player.
#[derive(Clone, Copy, Debug, PartialEq, Eq, Hash, Structural)]
pub enum GameInput {
    MoveLeft,
    MoveRight,
    SoftDrop,
    HardDrop,
    RotateClockwise,
    RotateCounterClockwise,
    Quit,
    Restart,
    Pause,
    ToggleEraseLine,
    Unknown,
}

/// Text that names each command.
pub open spec fn description_of(i: GameInput) -> Seq<char> {
    match i {
        GameInput::MoveLeft => "Move Left"@,
        GameInput::MoveRight => "Move Right"@,
        GameInput::SoftDrop => "Soft Drop"@,
        GameInput::HardDrop => "Hard Drop"@,
        GameInput::RotateClockwise => "Rotate Clockwise"@,
        GameInput::RotateCounterClockwise => "Rotate Counter-Clockwise"@,
        GameInput::Quit => "Quit Game"@,
        GameInput::Restart => "Restart/Start Game"@,
        GameInput::Pause => "Pause Game"@,
        GameInput::ToggleEraseLine => "Toggle Erase Line"@,
        GameInput::Unknown => "Unknown Input"@,
    }
}

impl GameInput {
    /// Whether the command moves the piece.
    pub fn is_movement(&self) -> (r: bool)
        ensures
            r == (*self == GameInput::MoveLeft || *self == GameInput::MoveRight || *self == GameInput::SoftDrop
                || *self == GameInput::HardDrop),
    {
        match self {
            GameInput::MoveLeft | GameInput::MoveRight | GameInput::SoftDrop | GameInput::HardDrop => true,
            _ => false,
        }
    }

    /// Whether the command turns the piece.
    pub fn is_rotation(&self) -> (r: bool)
        ensures
            r == (*self == GameInput::RotateClockwise || *self == GameInput::RotateCounterClockwise),
    {
        match self {
            GameInput::RotateClockwise | GameInput::RotateCounterClockwise => true,
            _ => false,
        }
    }

    /// Whether the command controls the game.
    pub fn is_control(&self) -> (r: bool)
        ensures
            r == (*self == GameInput::Quit || *self == GameInput::Restart || *self == GameInput::Pause),
    {
        match self {
            GameInput::Quit | GameInput::Restart | GameInput::Pause => true,
            _ => false,
        }
    }

    /// Name of the command, for messages.
    pub fn description(&self) -> (s: &'static str)
        ensures
            s@ == description_of(*self),
    {
        match self {
            GameInput::MoveLeft => "Move Left",
            GameInput::MoveRight => "Move Right",
            GameInput::SoftDrop => "Soft Drop",
            GameInput::HardDrop => "Hard Drop",
            GameInput::RotateClockwise => "Rotate Clockwise",
            GameInput::RotateCounterClockwise => "Rotate Counter-Clockwise",
            GameInput::Quit => "Quit Game",
            GameInput::Restart => "Restart/Start Game",
            GameInput::Pause => "Pause Game",
            GameInput::ToggleEraseLine => "Toggle Erase Line",
            GameInput::Unknown => "Unknown Input",
        }
    }
}

/// No command is of two kinds: moves, turns and game controls are apart.
pub proof fn lemma_input_kinds_disjoint(i: GameInput)
    ensures
        !((i == GameInput::MoveLeft || i == GameInput::MoveRight || i == GameInput::SoftDrop || i == GameInput::HardDrop)
            && (i == GameInput::RotateClockwise || i == GameInput::RotateCounterClockwise)),
        !((i == GameInput::MoveLeft || i == GameInput::MoveRight || i == GameInput::SoftDrop || i == GameInput::HardDrop)
            && (i == GameInput::Quit || i == GameInput::Restart || i == GameInput::Pause)),
        !((i == GameInput::RotateClockwise || i == GameInput::RotateCounterClockwise)
            && (i == GameInput::Quit || i == GameInput::Restart || i == GameInput::Pause)),
{
}

/// A key as the game sees it.
#[derive(Clone, Copy, Debug, PartialEq, Eq, Structural)]
pub enum Key {
    Left,
    Right,
    Up,
    Down,
    Enter,
    Char(char),
    Other,
}

/// The command of a key event: only presses count; Down is a clockwise turn,
/// or a hard drop with Shift held; Up is a counter-clockwise turn; Space a
/// soft drop; Q quits, Enter starts or restarts, P pauses; anything else is
/// unknown.
pub open spec fn input_of_key(key: Key, shift: bool, is_press: bool) -> GameInput {
    if !is_press {
        GameInput::Unknown
    } else {
        match key {
            Key::Left => GameInput::MoveLeft,
            Key::Right => GameInput::MoveRight,
            Key::Down => if shift { GameInput::HardDrop } else { GameInput::RotateClockwise },
            Key::Up => GameInput::RotateCounterClockwise,
            Key::Char(c) => if c == ' ' {
                GameInput::SoftDrop
            } else if c == 'q' || c == 'Q' {
                GameInput::Quit
            } else if c == 'p' || c == 'P' {
                GameInput::Pause
            } else {
                GameInput::Unknown
            },
            Key::Enter => GameInput::Restart,
            Key::Other => GameInput::Unknown,
        }
    }
}

/// The command of a key event (see `input_of_key`).
pub fn input_from_key(key: Key, shift: bool, is_press: bool) -> (i: GameInput)
    ensures
        i == input_of_key(key, shift, is_press),
{
    if !is_press {
        return GameInput::Unknown;
    }
    match key {
        Key::Left => GameInput::MoveLeft,
        Key::Right => GameInput::MoveRight,
        Key::Down => if shift { GameInput::HardDrop } else { GameInput::RotateClockwise },
        Key::Up => GameInput::RotateCounterClockwise,
        Key::Char(' ') => GameInput::SoftDrop,
        Key::Char('q') | Key::Char('Q') => GameInput::Quit,
        Key::Enter => GameInput::Restart,
        Key::Char('p') | Key::Char('P') => GameInput::Pause,
        _ => GameInput::Unknown,
    }
}

/// Appends `input` to `pending` unless it is unknown.
pub fn keep_known_input(pending: &mut Vec<GameInput>, input: GameInput)
    ensures
        final(pending)@ == if input == GameInput::Unknown { old(pending)@ } else { old(pending)@.push(input) },
{
    if input != GameInput::Unknown {
        pending.push(input);
    }
}

#[verifier::external_type_specification]
#[verifier::external_body]
pub struct ExIoError(std::io::Error);

/// A source of player commands.
pub trait InputProvider {
    /// Whether a command is waiting, looking for at most `timeout_ms`.
    fn poll_input(&mut self, timeout_ms: u64) -> Result<bool, std::io::Error>;

    /// The next command, if any.
    fn read_input(&mut self) -> Result<Option<GameInput>, std::io::Error>;

    /// Every command waiting, oldest first.
    fn read_all_pending(&mut self) -> Result<Vec<GameInput>, std::io::Error>;
}

/// Commands handed in by a front end, read in the order they came.
#[derive(Debug)]
pub struct WebInputProvider {
    pending_inputs: VecDeque<GameInput>,
}

impl WebInputProvider {
    /// The commands waiting, oldest first.
    pub closed spec fn queue(&self) -> Seq<GameInput> {
        self.pending_inputs@
    }

    /// An empty queue.
    pub fn new() -> (p: Self)
        ensures
            p.queue() == Seq::<GameInput>::empty(),
    {
        Self { pending_inputs: VecDeque::new() }
    }

    /// Queues `input` after the waiting commands.
    pub fn push_input(&mut self, input: GameInput)
        ensures
            final(self).queue() == old(self).queue().push(input),
    {
        self.pending_inputs.push_back(input);
    }

}

impl InputProvider for WebInputProvider {
    /// Whether a command is waiting; never fails.
    fn poll_input(&mut self, timeout_ms: u64) -> (r: Result<bool, std::io::Error>)
        ensures
            r == Ok::<bool, std::io::Error>(old(self).queue().len() > 0),
            final(self).queue() == old(self).queue(),
    {
        Ok(self.pending_inputs.len() > 0)
    }

    /// The oldest waiting command, taken off the queue; `None` when none
    /// waits.  Never fails.
    fn read_input(&mut self) -> (r: Result<Option<GameInput>, std::io::Error>)
        ensures
            old(self).queue().len() == 0 ==> r == Ok::<Option<GameInput>, std::io::Error>(None)
                && final(self).queue() == old(self).queue(),
            old(self).queue().len() > 0 ==> r == Ok::<Option<GameInput>, std::io::Error>(Some(old(self).queue()[0]))
                && final(self).queue() == old(self).queue().drop_first(),
    {
        Ok(self.pending_inputs.pop_front())
    }

    /// Every waiting command, oldest first; the queue is left empty.  Never
    /// fails.
    fn read_all_pending(&mut self) -> (r: Result<Vec<GameInput>, std::io::Error>)
        ensures
            r matches Ok(v) && v@ == old(self).queue(),
            final(self).queue() == Seq::<GameInput>::empty(),
    {
        let mut inputs: Vec<GameInput> = Vec::new();
        while self.pending_inputs.len() > 0
            invariant
                inputs@ + self.queue() == old(self).queue(),
            decreases self.queue().len(),
        {
            let ghost before = self.queue();
            if let Some(input) = self.pending_inputs.pop_front() {
                inputs.push(input);
                proof {
                    assert(inputs@ + self.queue() =~= old(self).queue()) by {
                        assert(before =~= seq![input] + self.queue());
                    }
                }
            }
        }
        proof {
            assert(inputs@ =~= inputs@ + self.queue());
        }
        Ok(inputs)
    }
}

} // verus!
