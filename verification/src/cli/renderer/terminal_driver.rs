//! What the terminal has to be sent to show a frame: the whole screen, or
//! only the lines that changed since the last frame shown.  Writing to the
//! terminal is left to the program.
use vstd::prelude::*;
use crate::cli::renderer::frame::Frame;
use crate::cli::renderer::settings::CliRenderSettings;

verus! {

/// The frame on the screen, if any.
#[derive(Debug)]
pub struct TerminalDriver {
    last_frame: Option<Frame>,
}

/// Indices of the first `n` lines of `new` that are not the same line of
/// `old` (or that `old` lacks), in order.
pub open spec fn changed_upto(old: Seq<String>, new: Seq<String>, n: int) -> Seq<usize>
    decreases n,
{
    if n <= 0 {
        Seq::empty()
    } else {
        let prev = changed_upto(old, new, n - 1);
        if n - 1 >= old.len() || old[n - 1]@ != new[n - 1]@ { prev.push((n - 1) as usize) } else { prev }
    }
}

impl TerminalDriver {
    /// The frame on the screen.
    pub closed spec fn shown(&self) -> Option<Frame> {
        self.last_frame
    }

    /// A driver with nothing on the screen.
    pub fn new() -> (d: Self)
        ensures
            d.shown() is None,
    {
        Self { last_frame: None }
    }

    /// Whether showing `frame` in full clears the screen first (otherwise it
    /// only homes the cursor): when the frame asks for it or double
    /// buffering is on.
    pub fn clears_screen(&self, frame: &Frame, settings: &CliRenderSettings) -> (r: bool)
        ensures
            r == (frame.requires_clear || settings.double_buffering),
    {
        frame.requires_clear || settings.double_buffering
    }

    /// Whether an incremental showing of `frame` has to show it in full:
    /// nothing shown yet, a frame that asks to clear, or double buffering.
    pub fn needs_full_frame(&self, frame: &Frame, settings: &CliRenderSettings) -> (r: bool)
        ensures
            r == (self.shown() is None || frame.requires_clear || settings.double_buffering),
    {
        self.last_frame.is_none() || frame.requires_clear || settings.double_buffering
    }

    /// Lines of `frame` that differ from the frame on the screen, in order;
    /// every line when nothing is shown.
    pub fn changed_lines(&self, frame: &Frame) -> (r: Vec<usize>)
        ensures
            r@ == match self.shown() {
                Some(prev) => changed_upto(prev.lines@, frame.lines@, frame.lines@.len() as int),
                None => changed_upto(Seq::empty(), frame.lines@, frame.lines@.len() as int),
            },
    {
        let mut r: Vec<usize> = Vec::new();
        let empty: Vec<String> = Vec::new();
        let previous: &Vec<String> = match &self.last_frame {
            Some(prev) => &prev.lines,
            None => &empty,
        };
        let mut idx: usize = 0;
        while idx < frame.lines.len()
            invariant
                idx <= frame.lines@.len(),
                previous@ == match self.shown() {
                    Some(prev) => prev.lines@,
                    None => Seq::<String>::empty(),
                },
                r@ == changed_upto(previous@, frame.lines@, idx as int),
            decreases frame.lines@.len() - idx,
        {
            if idx >= previous.len() {
                r.push(idx);
            } else if previous[idx] != frame.lines[idx] {
                r.push(idx);
            }
            idx += 1;
        }
        r
    }

    /// Lines on the screen below the end of `frame`, to be blanked: from the
    /// frame's length up to the shown frame's length.
    pub fn stale_lines(&self, frame: &Frame) -> (r: (usize, usize))
        ensures
            r.0 == frame.lines@.len(),
            r.1 == match self.shown() {
                Some(prev) => if prev.lines@.len() > frame.lines@.len() { prev.lines@.len() } else { frame.lines@.len() as nat },
                None => frame.lines@.len() as nat,
            },
    {
        let new_len = frame.lines.len();
        let old_len = match &self.last_frame {
            Some(prev) => prev.lines.len(),
            None => new_len,
        };
        if new_len < old_len { (new_len, old_len) } else { (new_len, new_len) }
    }

    /// Records `frame` as the frame on the screen.
    pub fn remember(&mut self, frame: Frame)
        ensures
            final(self).shown() == Some(frame),
    {
        self.last_frame = Some(frame);
    }
}

/// Showing again the frame that is on the screen rewrites no line.
pub proof fn lemma_same_frame_changes_nothing(lines: Seq<String>, n: int)
    requires
        0 <= n <= lines.len(),
    ensures
        changed_upto(lines, lines, n).len() == 0,
    decreases n,
{
    if n > 0 {
        lemma_same_frame_changes_nothing(lines, n - 1);
    }
}

} // verus!
