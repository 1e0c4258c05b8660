//! What one client's terminal shows: a header, a scrolling pane of chat
//! lines, and a prompt.

use crate::message::{ChatMessage, ChatMessageView};
use crate::text::{push_char, push_repeated, repeated, to_chars, uppercase, uppercase_of};
use std::collections::VecDeque;
use vstd::prelude::*;
use vstd::string::StringExecFns;
use vstd::utf8::encode_utf8;

verus! {

/// The number of characters of a message that one line of the pane takes.
pub const WRAP_WIDTH: usize = 60;

/// The label that opens the first line of a message.
pub open spec fn label_of(nick: Seq<char>) -> Seq<char> {
    "["@ + nick + "]: "@
}

/// The number of bytes that `s` takes in UTF-8.
pub open spec fn byte_width(s: Seq<char>) -> usize {
    encode_utf8(s).len() as usize
}

/// The number of lines that a payload of `len` characters takes.
pub open spec fn wrapped_count(len: nat) -> nat {
    if len % 60 == 0 {
        len / 60
    } else {
        len / 60 + 1
    }
}

/// Line `i` of a message: the label on the first line, as many spaces as the
/// label has bytes on the others, then up to sixty characters of the
/// payload, then a line break.
pub open spec fn wrapped_line(msg: ChatMessageView, i: int) -> Seq<char> {
    let lead = if i == 0 {
        label_of(msg.nick)
    } else {
        repeated(' ', byte_width(label_of(msg.nick)) as nat)
    };
    let end = if 60 * (i + 1) <= msg.payload.len() {
        60 * (i + 1)
    } else {
        msg.payload.len() as int
    };
    lead + msg.payload.subrange(60 * i, end) + "\r\n"@
}

/// The lines that a message takes in the pane. An empty payload takes none.
pub open spec fn wrapped(msg: ChatMessageView) -> Seq<Seq<char>> {
    Seq::new(wrapped_count(msg.payload.len()), |i: int| wrapped_line(msg, i))
}

/// The pane after `fresh` lines arrive. A pane that has reached its height
/// gives up as many of its oldest lines as arrive (all of them, if more
/// arrive than it holds); a pane below its height only grows.
pub open spec fn scrolled(lines: Seq<Seq<char>>, height: nat, fresh: Seq<Seq<char>>) -> Seq<
    Seq<char>,
> {
    if lines.len() >= height {
        if fresh.len() <= lines.len() {
            lines.skip(fresh.len() as int) + fresh
        } else {
            fresh
        }
    } else {
        lines + fresh
    }
}

/// All lines run together.
pub open spec fn joined(lines: Seq<Seq<char>>) -> Seq<char>
    decreases lines.len(),
{
    if lines.len() == 0 {
        Seq::empty()
    } else {
        joined(lines.drop_last()) + lines.last()
    }
}

/// The prompt that stands for a channel: its name in upper case, a colon and
/// a space.
pub open spec fn prompt_for(name: Seq<char>) -> Seq<char> {
    uppercase_of(name) + ": "@
}

/// The texts that a run of strings holds.
pub open spec fn texts(lines: Seq<String>) -> Seq<Seq<char>> {
    Seq::new(lines.len(), |i: int| lines[i]@)
}

/// One more string at the end is one more text at the end.
pub proof fn lemma_texts_push(lines: Seq<String>, line: String)
    ensures
        texts(lines.push(line)) == texts(lines).push(line@),
{
}

/// The texts of a stretch are the stretch of the texts.
pub proof fn lemma_texts_subrange(lines: Seq<String>, from: int, to: int)
    requires
        0 <= from <= to <= lines.len(),
    ensures
        texts(lines.subrange(from, to)) == texts(lines).subrange(from, to),
{
}

/// The prompt made from a channel's name that is already in upper case.
pub fn prompt_from(upper: String) -> (prompt: String)
    ensures
        prompt@ == upper@ + ": "@,
{
    let mut prompt = upper;
    prompt.append(": ");
    prompt
}

/// The scrolling pane of chat lines.
#[derive(Debug)]
pub struct Chat {
    chat: VecDeque<String>,
    number_of_lines: usize,
}

/// A pane as plain text.
pub struct ChatView {
    pub lines: Seq<Seq<char>>,
    pub number_of_lines: usize,
}

impl View for Chat {
    type V = ChatView;

    closed spec fn view(&self) -> ChatView {
        ChatView {
            lines: texts(self.chat@),
            number_of_lines: self.number_of_lines,
        }
    }
}

impl Chat {
    pub fn new(number_of_lines: usize) -> (chat: Self)
        ensures
            chat@ == (ChatView { lines: Seq::empty(), number_of_lines }),
    {
        let chat = Chat { chat: VecDeque::new(), number_of_lines };
        assert(chat@.lines =~= Seq::empty());
        chat
    }

    /// Wraps `msg` into lines and scrolls them into the pane.
    pub fn add_text(&mut self, msg: ChatMessage)
        ensures
            final(self)@ == (ChatView {
                lines: scrolled(old(self)@.lines, old(self)@.number_of_lines as nat, wrapped(msg@)),
                ..old(self)@
            }),
    {
        let mut label = String::new();
        label.append("[");
        label.append(msg.nick.as_str());
        label.append("]: ");
        let padding = label.as_str().len();
        let chars = to_chars(msg.payload.as_str());
        let total = chars.len();
        let count = if total % WRAP_WIDTH == 0 {
            total / WRAP_WIDTH
        } else {
            total / WRAP_WIDTH + 1
        };
        let ghost before = self@.lines;
        let ghost fresh = wrapped(msg@);
        if self.chat.len() >= self.number_of_lines {
            let gone = if count <= self.chat.len() {
                count
            } else {
                self.chat.len()
            };
            let mut k: usize = 0;
            while k < gone
                invariant
                    k <= gone <= before.len(),
                    self.number_of_lines == old(self).number_of_lines,
                    self.chat@.len() == before.len() - k,
                    self@.lines == before.skip(k as int),
                decreases gone - k,
            {
                proof {
                    lemma_texts_subrange(self.chat@, 1, self.chat@.len() as int);
                }
                self.chat.pop_front();
                k += 1;
            }
        }
        let ghost base = self@.lines;
        let mut i: usize = 0;
        while i < count
            invariant
                i <= count,
                count == wrapped_count(total as nat),
                total == chars@.len(),
                chars@ == msg@.payload,
                label@ == label_of(msg@.nick),
                padding == byte_width(label@),
                fresh == wrapped(msg@),
                self.number_of_lines == old(self).number_of_lines,
                self@.lines == base + fresh.take(i as int),
            decreases count - i,
        {
            let start = i * WRAP_WIDTH;
            let end = if total - start > WRAP_WIDTH {
                start + WRAP_WIDTH
            } else {
                total
            };
            let mut line = String::new();
            if i == 0 {
                line.append(label.as_str());
            } else {
                push_repeated(&mut line, ' ', padding);
            }
            let ghost lead = line@;
            let mut j: usize = start;
            while j < end
                invariant
                    start <= j <= end <= chars.len(),
                    line@ == lead + chars@.subrange(start as int, j as int),
                decreases end - j,
            {
                push_char(&mut line, chars[j]);
                j += 1;
            }
            line.append("\r\n");
            proof {
                lemma_texts_push(self.chat@, line);
            }
            self.chat.push_back(line);
            i += 1;
        }
        assert(fresh.take(count as int) =~= fresh);
    }

    /// The whole pane as one text.
    pub fn get_chat(&self) -> (text: String)
        ensures
            text@ == joined(self@.lines),
    {
        let mut text = String::new();
        let mut i: usize = 0;
        while i < self.chat.len()
            invariant
                i <= self.chat@.len(),
                text@ == joined(self@.lines.take(i as int)),
            decreases self.chat@.len() - i,
        {
            text.append(self.chat[i].as_str());
            assert(self@.lines.take(i + 1).drop_last() =~= self@.lines.take(i as int));
            i += 1;
        }
        assert(self@.lines.take(i as int) =~= self@.lines);
        text
    }

    /// The number of lines that the pane holds now.
    pub fn len(&self) -> (n: usize)
        ensures
            n == self@.lines.len(),
    {
        self.chat.len()
    }

    /// The height that the pane was made with.
    pub fn number_of_lines(&self) -> (n: usize)
        ensures
            n == self@.number_of_lines,
    {
        self.number_of_lines
    }
}

impl Clone for Chat {
    fn clone(&self) -> (chat: Self)
        ensures
            chat@ == self@,
    {
        let mut lines: VecDeque<String> = VecDeque::new();
        let mut i: usize = 0;
        while i < self.chat.len()
            invariant
                i <= self.chat@.len(),
                texts(lines@) == self@.lines.take(i as int),
            decreases self.chat@.len() - i,
        {
            let line = self.chat[i].clone();
            proof {
                lemma_texts_push(lines@, line);
            }
            lines.push_back(line);
            i += 1;
        }
        assert(self@.lines.take(i as int) =~= self@.lines);
        Chat { chat: lines, number_of_lines: self.number_of_lines }
    }
}

/// One client's terminal.
#[derive(Debug)]
pub struct Terminal {
    pub start_cmd: String,
    pub header: String,
    pub chat: Chat,
    pub prompt: String,
    pub end_cmd: String,
}

/// A terminal as plain text.
pub struct TerminalView {
    pub start_cmd: Seq<char>,
    pub header: Seq<char>,
    pub chat: ChatView,
    pub prompt: Seq<char>,
    pub end_cmd: Seq<char>,
}

impl View for Terminal {
    type V = TerminalView;

    open spec fn view(&self) -> TerminalView {
        TerminalView {
            start_cmd: self.start_cmd@,
            header: self.header@,
            chat: self.chat@,
            prompt: self.prompt@,
            end_cmd: self.end_cmd@,
        }
    }
}

impl Terminal {
    /// A blank terminal whose pane is `chat_lines` high.
    pub fn new(chat_lines: usize) -> (terminal: Self)
        ensures
            terminal@ == (TerminalView {
                start_cmd: Seq::empty(),
                header: Seq::empty(),
                chat: ChatView { lines: Seq::empty(), number_of_lines: chat_lines },
                prompt: Seq::empty(),
                end_cmd: Seq::empty(),
            }),
    {
        Terminal {
            start_cmd: String::new(),
            header: String::new(),
            chat: Chat::new(chat_lines),
            prompt: String::new(),
            end_cmd: String::new(),
        }
    }

    pub fn get_header(&self) -> (header: String)
        ensures
            header@ == self@.header,
    {
        self.header.clone()
    }

    pub fn get_chat(&self) -> (text: String)
        ensures
            text@ == joined(self@.chat.lines),
    {
        self.chat.get_chat()
    }

    pub fn get_prompt(&self) -> (prompt: String)
        ensures
            prompt@ == self@.prompt,
    {
        self.prompt.clone()
    }

    /// The height of the chat pane.
    pub fn get_terminal_lines(&self) -> (n: usize)
        ensures
            n == self@.chat.number_of_lines,
    {
        self.chat.number_of_lines()
    }

    /// Scrolls `msg` into the chat pane.
    pub fn add_message(&mut self, msg: ChatMessage)
        ensures
            final(self)@ == (TerminalView {
                chat: ChatView {
                    lines: scrolled(
                        old(self)@.chat.lines,
                        old(self)@.chat.number_of_lines as nat,
                        wrapped(msg@),
                    ),
                    ..old(self)@.chat
                },
                ..old(self)@
            }),
    {
        self.chat.add_text(msg);
    }

    /// Sets the prompt to the one that stands for `prompt`.
    pub fn set_prompt(&mut self, prompt: String)
        ensures
            final(self)@ == (TerminalView { prompt: prompt_for(prompt@), ..old(self)@ }),
    {
        self.prompt = prompt_from(uppercase(prompt.as_str()));
    }
}

impl Clone for Terminal {
    fn clone(&self) -> (terminal: Self)
        ensures
            terminal@ == self@,
    {
        Terminal {
            start_cmd: self.start_cmd.clone(),
            header: self.header.clone(),
            chat: self.chat.clone(),
            prompt: self.prompt.clone(),
            end_cmd: self.end_cmd.clone(),
        }
    }
}

} // verus!
