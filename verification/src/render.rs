//! Drawing through a renderer: the commands a screen is made of, the
//! renderer interface that carries them out, a renderer that records them,
//! and the title screen.
use vstd::prelude::*;
use crate::config::{BOARD_HEIGHT, BOARD_WIDTH};
use crate::game_color::GameColor;

verus! {

/// One drawing command.
#[derive(Debug, Clone, PartialEq)]
pub enum RenderCommand {
    ClearScreen,
    MoveTo(u16, u16),
    SetForegroundColor(GameColor),
    SetBackgroundColor(GameColor),
    Print(String),
    ResetColor,
    Flush,
}

/// `log` is `before` followed by the command `cmd`.
pub open spec fn logged(before: Seq<RenderCommand>, log: Seq<RenderCommand>, cmd: RenderCommand) -> bool {
    log == before.push(cmd)
}

/// `log` is `before` followed by a command that prints `text`.
pub open spec fn logged_print(before: Seq<RenderCommand>, log: Seq<RenderCommand>, text: Seq<char>) -> bool {
    &&& log.len() == before.len() + 1
    &&& log.drop_last() == before
    &&& log.last() matches RenderCommand::Print(s) && s@ == text
}

/// Something that carries out drawing commands, such as a terminal.  Each
/// command either succeeds and is carried out, or fails and changes
/// nothing.  A renderer may also promise never to fail (`infallible`).
pub trait Renderer {
    /// The commands carried out so far, in order.
    spec fn log(&self) -> Seq<RenderCommand>;

    /// The renderer promises that every command succeeds.
    spec fn infallible(&self) -> bool;

    /// Clears the screen.
    fn clear_screen(&mut self) -> (r: Result<(), std::io::Error>)
        ensures
            r is Ok ==> logged(old(self).log(), final(self).log(), RenderCommand::ClearScreen),
            r is Err ==> final(self).log() == old(self).log(),
            old(self).infallible() ==> r is Ok && final(self).infallible();

    /// Moves the cursor to column `x`, row `y`.
    fn move_to(&mut self, x: u16, y: u16) -> (r: Result<(), std::io::Error>)
        ensures
            r is Ok ==> logged(old(self).log(), final(self).log(), RenderCommand::MoveTo(x, y)),
            r is Err ==> final(self).log() == old(self).log(),
            old(self).infallible() ==> r is Ok && final(self).infallible();

    /// Sets the text colour.
    fn set_foreground_color(&mut self, color: GameColor) -> (r: Result<(), std::io::Error>)
        ensures
            r is Ok ==> logged(old(self).log(), final(self).log(), RenderCommand::SetForegroundColor(color)),
            r is Err ==> final(self).log() == old(self).log(),
            old(self).infallible() ==> r is Ok && final(self).infallible();

    /// Sets the background colour.
    fn set_background_color(&mut self, color: GameColor) -> (r: Result<(), std::io::Error>)
        ensures
            r is Ok ==> logged(old(self).log(), final(self).log(), RenderCommand::SetBackgroundColor(color)),
            r is Err ==> final(self).log() == old(self).log(),
            old(self).infallible() ==> r is Ok && final(self).infallible();

    /// Prints `s` at the cursor.
    fn print(&mut self, s: &str) -> (r: Result<(), std::io::Error>)
        ensures
            r is Ok ==> logged_print(old(self).log(), final(self).log(), s@),
            r is Err ==> final(self).log() == old(self).log(),
            old(self).infallible() ==> r is Ok && final(self).infallible();

    /// Returns to the default colours.
    fn reset_color(&mut self) -> (r: Result<(), std::io::Error>)
        ensures
            r is Ok ==> logged(old(self).log(), final(self).log(), RenderCommand::ResetColor),
            r is Err ==> final(self).log() == old(self).log(),
            old(self).infallible() ==> r is Ok && final(self).infallible();

    /// Shows what was drawn.
    fn flush(&mut self) -> (r: Result<(), std::io::Error>)
        ensures
            r is Ok ==> logged(old(self).log(), final(self).log(), RenderCommand::Flush),
            r is Err ==> final(self).log() == old(self).log(),
            old(self).infallible() ==> r is Ok && final(self).infallible();
}

/// A renderer that only records the commands; it never fails.
#[derive(Debug)]
pub struct RecordingRenderer {
    pub commands: Vec<RenderCommand>,
}

impl RecordingRenderer {
    /// A renderer with nothing recorded.
    pub fn new() -> (r: Self)
        ensures
            r.log().len() == 0,
            r.infallible(),
    {
        RecordingRenderer { commands: Vec::new() }
    }
}

impl Renderer for RecordingRenderer {
    open spec fn log(&self) -> Seq<RenderCommand> {
        self.commands@
    }

    open spec fn infallible(&self) -> bool {
        true
    }

    fn clear_screen(&mut self) -> (r: Result<(), std::io::Error>) {
        self.commands.push(RenderCommand::ClearScreen);
        Ok(())
    }

    fn move_to(&mut self, x: u16, y: u16) -> (r: Result<(), std::io::Error>) {
        self.commands.push(RenderCommand::MoveTo(x, y));
        Ok(())
    }

    fn set_foreground_color(&mut self, color: GameColor) -> (r: Result<(), std::io::Error>) {
        self.commands.push(RenderCommand::SetForegroundColor(color));
        Ok(())
    }

    fn set_background_color(&mut self, color: GameColor) -> (r: Result<(), std::io::Error>) {
        self.commands.push(RenderCommand::SetBackgroundColor(color));
        Ok(())
    }

    fn print(&mut self, s: &str) -> (r: Result<(), std::io::Error>) {
        let ghost before = self.commands@;
        let text = s.to_owned();
        self.commands.push(RenderCommand::Print(text));
        assert(self.commands@.drop_last() =~= before);
        Ok(())
    }

    fn reset_color(&mut self) -> (r: Result<(), std::io::Error>) {
        self.commands.push(RenderCommand::ResetColor);
        Ok(())
    }

    fn flush(&mut self) -> (r: Result<(), std::io::Error>) {
        self.commands.push(RenderCommand::Flush);
        Ok(())
    }
}

/// Command `j` of the title screen: clear the screen; in yellow, "THUD &
/// TILE" at column 6, row 8; in white, "Press Enter to Start" at column 1,
/// row 10 and "Press 'q' to Quit" at column 3, row 11 (each text centred
/// over the 23 columns of the board and its frame); reset the colours;
/// flush.
pub open spec fn title_command(j: int, c: RenderCommand) -> bool {
    if j == 0 {
        c == RenderCommand::ClearScreen
    } else if j == 1 {
        c == RenderCommand::SetForegroundColor(GameColor::Yellow)
    } else if j == 2 {
        c == RenderCommand::MoveTo(6, 8)
    } else if j == 3 {
        c matches RenderCommand::Print(s) && s@ == "THUD & TILE"@
    } else if j == 4 {
        c == RenderCommand::SetForegroundColor(GameColor::White)
    } else if j == 5 {
        c == RenderCommand::MoveTo(1, 10)
    } else if j == 6 {
        c matches RenderCommand::Print(s) && s@ == "Press Enter to Start"@
    } else if j == 7 {
        c == RenderCommand::MoveTo(3, 11)
    } else if j == 8 {
        c matches RenderCommand::Print(s) && s@ == "Press 'q' to Quit"@
    } else if j == 9 {
        c == RenderCommand::ResetColor
    } else {
        c == RenderCommand::Flush
    }
}

/// `log` is `before` followed by the first `k` commands of the title
/// screen.
pub open spec fn title_prefix(before: Seq<RenderCommand>, log: Seq<RenderCommand>, k: int) -> bool {
    let n = before.len() as int;
    &&& log.len() == n + k
    &&& log.take(n) == before
    &&& forall|j: int| 0 <= j < k ==> #[trigger] title_command(j, log[n + j])
}

/// `log` is `before` followed by the whole title screen (all 11 commands).
pub open spec fn title_screen_drawn(before: Seq<RenderCommand>, log: Seq<RenderCommand>) -> bool {
    title_prefix(before, log, 11)
}

/// Carries out command `j` of the title screen.
fn draw_title_step<R: Renderer>(renderer: &mut R, j: usize) -> (r: Result<(), std::io::Error>)
    requires
        j < 11,
    ensures
        r is Ok ==> final(renderer).log().len() == old(renderer).log().len() + 1
            && final(renderer).log().drop_last() == old(renderer).log()
            && title_command(j as int, final(renderer).log().last()),
        r is Err ==> final(renderer).log() == old(renderer).log(),
        old(renderer).infallible() ==> r is Ok && final(renderer).infallible(),
{
    let width: u16 = (BOARD_WIDTH * 2 + 3) as u16;
    proof {
        reveal_strlit("THUD & TILE");
        reveal_strlit("Press Enter to Start");
        reveal_strlit("Press 'q' to Quit");
    }
    let r = match j {
        0 => renderer.clear_screen(),
        1 => renderer.set_foreground_color(GameColor::Yellow),
        2 => renderer.move_to((width - 11) / 2, (BOARD_HEIGHT / 2) as u16 - 2),
        3 => renderer.print("THUD & TILE"),
        4 => renderer.set_foreground_color(GameColor::White),
        5 => renderer.move_to((width - 20) / 2, (BOARD_HEIGHT / 2) as u16),
        6 => renderer.print("Press Enter to Start"),
        7 => renderer.move_to((width - 17) / 2, (BOARD_HEIGHT / 2) as u16 + 1),
        8 => renderer.print("Press 'q' to Quit"),
        9 => renderer.reset_color(),
        _ => renderer.flush(),
    };
    proof {
        if r is Ok {
            assert(renderer.log().drop_last() =~= old(renderer).log());
        }
    }
    r
}

/// Draws the title screen (see `title_command`), one command after the
/// other; stops at the first command that fails and returns its error,
/// with the commands before it carried out.  With a renderer that never
/// fails it succeeds.
pub fn draw_title_screen<R: Renderer>(renderer: &mut R) -> (r: Result<(), std::io::Error>)
    ensures
        r is Ok ==> title_screen_drawn(old(renderer).log(), final(renderer).log()),
        r is Err ==> exists|k: int| 0 <= k < 11 && #[trigger] title_prefix(old(renderer).log(), final(renderer).log(), k),
        old(renderer).infallible() ==> r is Ok,
{
    let ghost before = renderer.log();
    let ghost n = before.len() as int;
    let mut j: usize = 0;
    assert(renderer.log().take(n) =~= before);
    while j < 11
        invariant
            j <= 11,
            before == old(renderer).log(),
            n == before.len(),
            title_prefix(before, renderer.log(), j as int),
            old(renderer).infallible() ==> renderer.infallible(),
        decreases 11 - j,
    {
        let ghost prev = renderer.log();
        let step = draw_title_step(renderer, j);
        if step.is_err() {
            assert(title_prefix(before, renderer.log(), j as int));
            return step;
        }
        proof {
            let l = renderer.log();
            assert(l.drop_last() == prev);
            assert forall|i: int| 0 <= i < n + j implies l[i] == prev[i] by {
                assert(l.drop_last()[i] == l[i]);
            }
            assert(l.take(n) =~= before) by {
                assert(prev.take(n) == before);
            }
            assert forall|i: int| 0 <= i < j + 1 implies #[trigger] title_command(i, l[n + i]) by {
                if i < j {
                    assert(l[n + i] == prev[n + i]);
                } else {
                    assert(l[n + i] == l.last());
                }
            }
        }
        j = j + 1;
    }
    Ok(())
}

} // verus!
