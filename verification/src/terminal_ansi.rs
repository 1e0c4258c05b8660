//! Control sequences for the client's terminal, and the four screens that
//! the server sends: the opening one, the chat pane, the prompt, and the one
//! that gives the terminal back.

use crate::paint::{
    bold_blue_code, bold_green_code, dimmed_code, lemma_paints_within, paint_bold_blue,
    paint_bold_green, paint_dimmed, painted, paints_within,
};
use crate::terminal::{joined, Terminal, TerminalView};
use crate::text::{decimal, push_decimal, push_repeated, repeated};
use vstd::prelude::*;
use vstd::string::StringExecFns;

verus! {

/// The sequence that moves the cursor to row `x`, column `y`.
pub open spec fn cursor_to(x: nat, y: nat) -> Seq<char> {
    "\x1B["@ + decimal(x) + ";"@ + decimal(y) + "H"@
}

/// The sequence that asks the terminal to take `rows` rows and `cols`
/// columns.
pub open spec fn resize_to(rows: nat, cols: nat) -> Seq<char> {
    "\x1B[8;"@ + decimal(rows) + ";"@ + decimal(cols) + "t"@
}

/// `count` copies of `text`, one after the other.
pub open spec fn copies(text: Seq<char>, count: nat) -> Seq<char>
    decreases count,
{
    if count == 0 {
        Seq::empty()
    } else {
        copies(text, (count - 1) as nat) + text
    }
}

/// The row on which the prompt stands under a pane of `height` lines: three
/// below the pane, counted in sixteen bits.
pub open spec fn prompt_row(height: usize) -> nat {
    ((height % 65536 + 3) % 65536) as nat
}

/// What stands before the prompt when only the prompt is drawn again.
pub open spec fn prompt_lead(height: usize) -> Seq<char> {
    cursor_to(prompt_row(height), 0) + "\x1B[0J"@ + cursor_to(prompt_row(height), 0)
}

/// What stands before the chat text when the pane is drawn again.
pub open spec fn pane_lead(height: usize) -> Seq<char> {
    "\x1B[s"@ + cursor_to(2, 0) + copies("\x1B[2K"@, height as nat) + "\r\n"@ + cursor_to(2, 0)
}

/// Whether `out` is a drawing of the prompt of `terminal`: the cursor moved
/// to the prompt's row, the screen cleared from there, and the prompt in
/// bold green.
pub open spec fn draws_prompt(out: Seq<char>, terminal: TerminalView) -> bool {
    paints_within(
        out,
        prompt_lead(terminal.chat.number_of_lines),
        terminal.prompt,
        bold_green_code(),
        Seq::empty(),
    )
}

/// Whether `out` is a drawing of `terminal`. With an empty pane that is the
/// header in bold blue at the top and the prompt in bold green on its row.
/// With lines in the pane it is the pane alone: the cursor remembered, the
/// pane's rows cleared, the lines dimmed, and the cursor put back.
pub open spec fn draws_terminal(out: Seq<char>, terminal: TerminalView) -> bool {
    if terminal.chat.lines.len() == 0 {
        exists|header: Seq<char>| #[trigger]
            painted(header, terminal.header, bold_blue_code()) && paints_within(
                out,
                cursor_to(0, 0) + header + cursor_to(prompt_row(terminal.chat.number_of_lines), 0),
                terminal.prompt,
                bold_green_code(),
                Seq::empty(),
            )
    } else {
        paints_within(
            out,
            pane_lead(terminal.chat.number_of_lines),
            joined(terminal.chat.lines),
            dimmed_code(),
            "\x1B[u"@,
        )
    }
}

/// The sequence that gives the terminal back on leaving.
pub open spec fn restore_screen() -> Seq<char> {
    "\x1B[3J"@ + "\x1B[2J"@ + "\x1B[?1049l"@ + cursor_to(0, 0)
}

/// The sequence that prepares the terminal on arrival.
pub open spec fn init_screen() -> Seq<char> {
    "\x1B[?1049h"@ + "\x1B[3J"@ + resize_to(20, 80) + cursor_to(0, 0)
}

/// The control sequences that the server uses.
pub struct AnsiControlCodes;

impl AnsiControlCodes {
    /// Asks the terminal for its size.
    pub fn get_terminal_size(&self) -> (code: String)
        ensures
            code@ == "\x1B[18t"@,
    {
        "\x1B[18t".to_string()
    }

    /// Asks the terminal where the cursor is.
    pub fn get_cursor_position(&self) -> (code: String)
        ensures
            code@ == "\x1B[6n"@,
    {
        "\x1B[6n".to_string()
    }

    /// Clears the screen.
    pub fn clear_screen(&self) -> (code: String)
        ensures
            code@ == "\x1B[2J"@,
    {
        "\x1B[2J".to_string()
    }

    /// Turns local echo on.
    pub fn enable_local_echo(&self) -> (code: String)
        ensures
            code@ == "\x1B[12h"@,
    {
        "\x1B[12h".to_string()
    }

    /// Turns local echo off.
    pub fn disable_local_echo(&self) -> (code: String)
        ensures
            code@ == "\x1B[12l"@,
    {
        "\x1B[12l".to_string()
    }

    /// Moves the cursor to row `x`, column `y`.
    pub fn move_cursor(&self, x: u16, y: u16) -> (code: String)
        ensures
            code@ == cursor_to(x as nat, y as nat),
    {
        let mut code = "\x1B[".to_string();
        push_decimal(&mut code, x as usize);
        code.append(";");
        push_decimal(&mut code, y as usize);
        code.append("H");
        code
    }

    /// Moves the cursor up by `n` rows.
    pub fn move_cursor_up(&self, n: u16) -> (code: String)
        ensures
            code@ == "\x1B["@ + decimal(n as nat) + "A"@,
    {
        let mut code = "\x1B[".to_string();
        push_decimal(&mut code, n as usize);
        code.append("A");
        code
    }

    /// Moves the cursor down by `n` rows.
    pub fn move_cursor_down(&self, n: u16) -> (code: String)
        ensures
            code@ == "\x1B["@ + decimal(n as nat) + "B"@,
    {
        let mut code = "\x1B[".to_string();
        push_decimal(&mut code, n as usize);
        code.append("B");
        code
    }

    /// A line break.
    pub fn new_line(&self) -> (code: String)
        ensures
            code@ == "\r\n"@,
    {
        "\r\n".to_string()
    }

    /// Moves the cursor to the start of its line.
    pub fn move_cursor_start_of_line(&self) -> (code: String)
        ensures
            code@ == "\x1B[1000D"@,
    {
        "\x1B[1000D".to_string()
    }

    /// Clears the screen and what has scrolled off it.
    pub fn clear_all(&self) -> (code: String)
        ensures
            code@ == "\x1B[3J"@,
    {
        "\x1B[3J".to_string()
    }

    /// A rule of `length` dashes.
    pub fn draw_line(&self, length: usize) -> (line: String)
        ensures
            line@ == repeated('-', length as nat),
    {
        let mut line = String::new();
        push_repeated(&mut line, '-', length);
        line
    }

    /// Three rows of `length` hashes each.
    pub fn draw_box(&self, length: usize) -> (drawn: String)
        ensures
            drawn@ == repeated('#', length as nat) + "\r\n"@ + repeated('#', length as nat) + "\r\n"@
                + repeated('#', length as nat),
    {
        let mut drawn = String::new();
        push_repeated(&mut drawn, '#', length);
        drawn.append("\r\n");
        push_repeated(&mut drawn, '#', length);
        drawn.append("\r\n");
        push_repeated(&mut drawn, '#', length);
        drawn
    }

    /// Switches to the alternate screen.
    pub fn enter_alt_screen(&self) -> (code: String)
        ensures
            code@ == "\x1B[?1049h"@,
    {
        "\x1B[?1049h".to_string()
    }

    /// Leaves the alternate screen.
    pub fn exit_alt_screen(&self) -> (code: String)
        ensures
            code@ == "\x1B[?1049l"@,
    {
        "\x1B[?1049l".to_string()
    }

    /// Puts the cursor keys in application mode.
    pub fn vt100(&self) -> (code: String)
        ensures
            code@ == "\x1B[?1h"@,
    {
        "\x1B[?1h".to_string()
    }

    /// Leaves the alternate screen and the application modes.
    pub fn disable_enter(&self) -> (code: String)
        ensures
            code@ == "\x1B[?1049l\x1B[?1l\x1B>"@,
    {
        "\x1B[?1049l\x1B[?1l\x1B>".to_string()
    }

    /// Remembers where the cursor is.
    pub fn save_cursor(&self) -> (code: String)
        ensures
            code@ == "\x1B[s"@,
    {
        "\x1B[s".to_string()
    }

    /// Puts the cursor back where it was remembered.
    pub fn restore_cursor(&self) -> (code: String)
        ensures
            code@ == "\x1B[u"@,
    {
        "\x1B[u".to_string()
    }

    /// Clears the line that the cursor is on.
    pub fn clear_line(&self) -> (code: String)
        ensures
            code@ == "\x1B[2K"@,
    {
        "\x1B[2K".to_string()
    }

    /// Clears from the cursor to the end of the screen.
    pub fn clear_lines_to_end_of_screen(&self) -> (code: String)
        ensures
            code@ == "\x1B[0J"@,
    {
        "\x1B[0J".to_string()
    }

    /// Turns line wrapping off.
    pub fn disable_line_wrap(&self) -> (code: String)
        ensures
            code@ == "\x1B[7l"@,
    {
        "\x1B[7l".to_string()
    }

    /// Asks the terminal for its size.
    pub fn get_terminal_length(&self) -> (code: String)
        ensures
            code@ == "\x1B[18t"@,
    {
        "\x1B[18t".to_string()
    }

    /// Moves the cursor to the last row.
    pub fn move_cursor_the_end_of_terminal(&self) -> (code: String)
        ensures
            code@ == "\x1B[999;0H"@,
    {
        "\x1B[999;0H".to_string()
    }

    /// Asks the terminal to take `rows` rows and `cols` columns.
    pub fn set_terminal_size(&self, rows: u16, cols: u16) -> (code: String)
        ensures
            code@ == resize_to(rows as nat, cols as nat),
    {
        let mut code = "\x1B[8;".to_string();
        push_decimal(&mut code, rows as usize);
        code.append(";");
        push_decimal(&mut code, cols as usize);
        code.append("t");
        code
    }
}

fn row_of_prompt(height: usize) -> (row: u16)
    ensures
        row == prompt_row(height),
{
    ((height % 65536 + 3) % 65536) as u16
}

/// The opening screen under a pane of `height` lines, given the header and
/// the prompt as they look once they are coloured: the header at the top
/// and the prompt on its row.
pub fn compose_welcome(height: usize, header: &str, prompt: &str) -> (out: String)
    ensures
        out@ == cursor_to(0, 0) + header@ + cursor_to(prompt_row(height), 0) + prompt@,
{
    let ac = AnsiControlCodes;
    let mut out = ac.move_cursor(0, 0);
    out.append(header);
    out.append(ac.move_cursor(row_of_prompt(height), 0).as_str());
    out.append(prompt);
    out
}

/// The chat pane of `height` lines, given its text as it looks once it is
/// coloured: the cursor is remembered, the pane's rows are cleared, the
/// text is written from row 2, and the cursor is put back.
pub fn compose_pane(height: usize, chat: &str) -> (out: String)
    ensures
        out@ == pane_lead(height) + chat@ + "\x1B[u"@,
{
    let ac = AnsiControlCodes;
    let mut out = ac.save_cursor();
    out.append(ac.move_cursor(2, 0).as_str());
    let clear = ac.clear_line();
    let ghost before = out@;
    let mut i: usize = 0;
    while i < height
        invariant
            i <= height,
            clear@ == "\x1B[2K"@,
            out@ == before + copies("\x1B[2K"@, i as nat),
        decreases height - i,
    {
        out.append(clear.as_str());
        i += 1;
    }
    out.append("\r\n");
    out.append(ac.move_cursor(2, 0).as_str());
    out.append(chat);
    out.append(ac.restore_cursor().as_str());
    out
}

/// The prompt under a pane of `height` lines, given the prompt as it looks
/// once it is coloured: the cursor goes to the prompt's row, the screen is
/// cleared from there, and the prompt is written.
pub fn compose_prompt(height: usize, prompt: &str) -> (out: String)
    ensures
        out@ == prompt_lead(height) + prompt@,
{
    let ac = AnsiControlCodes;
    let row = row_of_prompt(height);
    let mut out = ac.move_cursor(row, 0);
    out.append(ac.clear_lines_to_end_of_screen().as_str());
    out.append(ac.move_cursor(row, 0).as_str());
    out.append(prompt);
    out
}

/// Draws `terminal`, in the colours of the moment: header and prompt while
/// the pane is empty, the pane once it holds lines. The terminal itself is
/// left as it was.
pub fn formatted_terminal(terminal: &mut Terminal) -> (out: String)
    ensures
        *final(terminal) == *old(terminal),
        draws_terminal(out@, old(terminal)@),
{
    let height = terminal.get_terminal_lines();
    if terminal.chat.len() == 0 {
        let header = paint_bold_blue(terminal.header.as_str());
        let prompt = paint_bold_green(terminal.prompt.as_str());
        let out = compose_welcome(height, header.as_str(), prompt.as_str());
        proof {
            let lead = cursor_to(0, 0) + header@ + cursor_to(prompt_row(height), 0);
            lemma_paints_within(lead, prompt@, Seq::empty(), terminal@.prompt, bold_green_code());
            assert(painted(header@, terminal@.header, bold_blue_code()) && paints_within(
                out@,
                cursor_to(0, 0) + header@ + cursor_to(prompt_row(height), 0),
                terminal@.prompt,
                bold_green_code(),
                Seq::empty(),
            ));
        }
        return out;
    }
    let text = paint_dimmed(terminal.get_chat().as_str());
    let out = compose_pane(height, text.as_str());
    proof {
        lemma_paints_within(
            pane_lead(height),
            text@,
            "\x1B[u"@,
            joined(terminal@.chat.lines),
            dimmed_code(),
        );
    }
    out
}

/// Draws the prompt of `terminal` again, below the pane, in the colours of
/// the moment. The terminal itself is left as it was.
pub fn update_prompt(terminal: &mut Terminal) -> (out: String)
    ensures
        *final(terminal) == *old(terminal),
        draws_prompt(out@, old(terminal)@),
{
    let height = terminal.get_terminal_lines();
    let prompt = paint_bold_green(terminal.prompt.as_str());
    let out = compose_prompt(height, prompt.as_str());
    proof {
        lemma_paints_within(
            prompt_lead(height),
            prompt@,
            Seq::empty(),
            terminal@.prompt,
            bold_green_code(),
        );
    }
    out
}

/// The sequence that gives the terminal back on leaving: what has scrolled
/// off is cleared, the screen is cleared, the alternate screen is left and
/// the cursor goes to the top.
pub fn restore_terminal() -> (out: String)
    ensures
        out@ == restore_screen(),
{
    let ac = AnsiControlCodes;
    let mut out = ac.clear_all();
    out.append(ac.clear_screen().as_str());
    out.append(ac.exit_alt_screen().as_str());
    out.append(ac.move_cursor(0, 0).as_str());
    out
}

/// The sequence that prepares the terminal on arrival: the alternate screen
/// is entered and cleared, the terminal is asked for twenty rows of eighty
/// columns, and the cursor goes to the top.
pub fn init_terminal() -> (out: String)
    ensures
        out@ == init_screen(),
{
    let ac = AnsiControlCodes;
    let mut out = ac.enter_alt_screen();
    out.append(ac.clear_all().as_str());
    out.append(ac.set_terminal_size(20, 80).as_str());
    out.append(ac.move_cursor(0, 0).as_str());
    out
}

} // verus!
