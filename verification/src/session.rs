//! One client's session: what the server does with each thing that its
//! connection yields. The caller owns the connection. It reads, tells the
//! session what the read gave, writes what the session hands back, and waits
//! where the session's state says so.

use crate::command::server_name;
use crate::engine::ServerEngine;
use crate::message::{ChatMessage, ChatMessageView, CmdMessage, CmdMessageView};
use crate::model::EngineView;
use crate::paint::{bold_blue_code, lemma_no_escape_no_reset, paint_bold_blue, reset_code};
use crate::terminal_ansi::{draws_prompt, draws_terminal, restore_screen, restore_terminal};
use crate::text::{
    decode_lossy, lossy_text_of, string_of, strip_trailing, to_chars, trailing_cut,
};
use vstd::prelude::*;

verus! {

/// How long, in milliseconds, a session leaves the dispatcher to carry out a
/// command before it draws the prompt again.
pub const COMMAND_DELAY_MS: u64 = 100;

/// How long, in milliseconds, a session rests between two reads.
pub const POLL_INTERVAL_MS: u64 = 10;

/// Whether `bytes` is one of the two signals by which a client breaks off:
/// the five-byte sequence or the single interrupt byte.
pub open spec fn is_interrupt(bytes: Seq<u8>) -> bool {
    bytes == seq![255u8, 244u8, 255u8, 253u8, 6u8] || bytes == seq![3u8]
}

/// Whether `payload` is, as a whole, one of the two signals by which a
/// client breaks off.
pub fn is_ctrl_c(payload: &[u8]) -> (r: bool)
    ensures
        r == is_interrupt(payload@),
{
    if payload.len() == 1 {
        let r = payload[0] == 3;
        assert(r == (payload@ =~= seq![3u8]));
        r
    } else if payload.len() == 5 {
        let r = payload[0] == 255 && payload[1] == 244 && payload[2] == 255 && payload[3] == 253
            && payload[4] == 6;
        assert(r == (payload@ =~= seq![255u8, 244u8, 255u8, 253u8, 6u8]));
        r
    } else {
        false
    }
}

/// Whether a run of bytes ends a line.
pub open spec fn ends_line(data: Seq<u8>) -> bool {
    data.len() > 0 && data.last() == 10u8
}

/// A text without the line feeds at its end and then without the carriage
/// returns at its end.
pub open spec fn trimmed(text: Seq<char>) -> Seq<char> {
    strip_trailing(strip_trailing(text, '\n'), '\r')
}

/// The line that a run of bytes holds.
pub open spec fn line_of(bytes: Seq<u8>) -> Seq<char> {
    trimmed(lossy_text_of(bytes))
}

/// What a line is to the server.
#[derive(Clone, Copy, Debug, PartialEq, Eq, Structural)]
pub enum LineKind {
    /// Nothing was typed.
    Empty,
    /// The line starts with `/`.
    Command,
    /// Anything else: the line is chat.
    Chat,
}

/// What the line `line` is to the server.
pub open spec fn kind_of(line: Seq<char>) -> LineKind {
    if line.len() == 0 {
        LineKind::Empty
    } else if line[0] == '/' {
        LineKind::Command
    } else {
        LineKind::Chat
    }
}

/// Takes `data` into `buffer`. Where `data` ends a line, everything
/// gathered so far comes back and the buffer is empty again.
pub fn frame(buffer: &mut Vec<u8>, data: &[u8]) -> (r: Option<Vec<u8>>)
    ensures
        ends_line(data@) ==> r is Some && r->0@ == old(buffer)@ + data@ && final(buffer)@
            == Seq::<u8>::empty(),
        !ends_line(data@) ==> r is None && final(buffer)@ == old(buffer)@ + data@,
{
    buffer.extend_from_slice(data);
    if data.len() > 0 && data[data.len() - 1] == 10 {
        let mut whole: Vec<u8> = Vec::new();
        std::mem::swap(buffer, &mut whole);
        Some(whole)
    } else {
        None
    }
}

/// `text` without the line feeds at its end and then without the carriage
/// returns at its end.
pub fn trim_line(text: &str) -> (line: String)
    ensures
        line@ == trimmed(text@),
{
    let chars = to_chars(text);
    let fed = trailing_cut(&chars, chars.len(), '\n');
    proof {
        assert(chars@.take(chars.len() as int) =~= chars@);
    }
    let end = trailing_cut(&chars, fed, '\r');
    let line = string_of(&chars, 0, end);
    line
}

/// The line that `bytes` holds.
pub fn read_line(bytes: &[u8]) -> (line: String)
    ensures
        line@ == line_of(bytes@),
{
    let text = decode_lossy(bytes);
    trim_line(text.as_str())
}

/// What `line` is to the server.
pub fn classify_line(line: &str) -> (kind: LineKind)
    ensures
        kind == kind_of(line@),
{
    let chars = to_chars(line);
    if chars.len() == 0 {
        LineKind::Empty
    } else if chars[0] == '/' {
        LineKind::Command
    } else {
        LineKind::Chat
    }
}

/// Where a session stands.
#[derive(Clone, Copy, Debug, PartialEq, Eq, Structural)]
pub enum SessionState {
    /// Waiting for the next read.
    AwaitingLine,
    /// A command went to the dispatcher; the prompt is drawn after a pause.
    Dispatching,
    /// What came in on the client's bus is about to be shown.
    Draining,
    /// The session is over.
    Closed,
}

/// What a read on the connection gave.
#[derive(Debug)]
pub enum Input {
    /// These bytes.
    Data(Vec<u8>),
    /// Nothing, and nothing will come: the peer closed.
    End,
    /// Nothing for now.
    Idle,
    /// An error.
    Failed,
}

/// The farewell that a closing session puts in the chat pane.
pub open spec fn farewell_text() -> Seq<char> {
    "See you later alligator!"@
}

/// The state of the session that handled the line `line`.
pub open spec fn state_after_line(line: Seq<char>) -> SessionState {
    match kind_of(line) {
        LineKind::Command => SessionState::Dispatching,
        _ => SessionState::Draining,
    }
}

impl EngineView {
    /// The state after the client `id` sent the line `line`: a command is
    /// queued for the dispatcher under the client's id, chat goes to the
    /// client's channel, and an empty line changes nothing.
    pub open spec fn after_line(self, id: usize, line: Seq<char>) -> EngineView {
        match kind_of(line) {
            LineKind::Empty => self,
            LineKind::Command => self.submitted(CmdMessageView { id, payload: line }),
            LineKind::Chat => self.spoken(id, line),
        }
    }

    /// The state after the client `id` moved the `count` oldest messages of
    /// its inbound bus into its chat pane, one by one.
    pub open spec fn caught_up(self, id: usize, count: nat) -> EngineView
        decreases count,
    {
        if count == 0 {
            self
        } else {
            let before = self.caught_up(id, (count - 1) as nat);
            before.taken(id).shown(id, before.clients[id as int].inbox[0])
        }
    }
}

/// Catching up touches nothing but the one client's inbox and terminal, and
/// takes the messages in the order of the inbox.
pub proof fn lemma_caught_up(e: EngineView, id: usize, count: nat)
    requires
        e.knows(id),
        count <= e.clients[id as int].inbox.len(),
    ensures
        e.caught_up(id, count).knows(id),
        e.caught_up(id, count).clients.len() == e.clients.len(),
        e.caught_up(id, count).channels == e.channels,
        e.caught_up(id, count).commands == e.commands,
        e.caught_up(id, count).clients[id as int].inbox == e.clients[id as int].inbox.skip(
            count as int,
        ),
        e.caught_up(id, count).clients[id as int].id == e.clients[id as int].id,
        e.caught_up(id, count).clients[id as int].channel == e.clients[id as int].channel,
    decreases count,
{
    if count > 0 {
        lemma_caught_up(e, id, (count - 1) as nat);
    }
}

/// One client's session.
#[derive(Debug)]
pub struct Session {
    /// The id under which the client is registered.
    pub id: usize,
    /// What has been read of a line that is not yet complete.
    pub buffer: Vec<u8>,
    /// Where the session stands.
    pub state: SessionState,
}

/// A session as plain values.
pub struct SessionView {
    pub id: usize,
    pub buffer: Seq<u8>,
    pub state: SessionState,
}

impl View for Session {
    type V = SessionView;

    open spec fn view(&self) -> SessionView {
        SessionView { id: self.id, buffer: self.buffer@, state: self.state }
    }
}

impl Session {
    /// A session for the client `id`, waiting for its first line.
    pub fn new(id: usize) -> (session: Self)
        ensures
            session@ == (SessionView {
                id,
                buffer: Seq::empty(),
                state: SessionState::AwaitingLine,
            }),
    {
        Session { id, buffer: Vec::new(), state: SessionState::AwaitingLine }
    }

    /// Ends the session in good order: the farewell goes into the client's
    /// chat pane under `label`, and what comes back is the sequence that
    /// gives the terminal back.
    pub fn close(&mut self, engine: &mut ServerEngine, label: String) -> (out: Vec<String>)
        requires
            old(engine).wf(),
            old(engine)@.knows(old(self)@.id),
        ensures
            final(engine).wf(),
            final(engine)@ == old(engine)@.shown(
                old(self)@.id,
                ChatMessageView { nick: label@, payload: farewell_text() },
            ),
            final(self)@ == (SessionView { state: SessionState::Closed, ..old(self)@ }),
            out@.len() == 1,
            out@[0]@ == restore_screen(),
    {
        engine.show(self.id, ChatMessage::new(label, "See you later alligator!".to_string()));
        self.state = SessionState::Closed;
        let mut out: Vec<String> = Vec::new();
        out.push(restore_terminal());
        out
    }

    /// Handles the line `line` that the client sent. An empty line only has
    /// the prompt drawn again. A line that starts with `/` is queued for the
    /// dispatcher under the client's id, and nothing is drawn yet. Any other
    /// line has the prompt drawn again and goes, under the client's nick, to
    /// every subscriber of the client's channel.
    pub fn on_line(&mut self, engine: &mut ServerEngine, line: String) -> (out: Vec<String>)
        requires
            old(engine).wf(),
            old(engine)@.knows(old(self)@.id),
        ensures
            final(engine).wf(),
            final(engine)@ == old(engine)@.after_line(old(self)@.id, line@),
            final(engine)@.clients.len() == old(engine)@.clients.len(),
            final(engine)@.channels == old(engine)@.channels,
            final(self)@ == (SessionView { state: state_after_line(line@), ..old(self)@ }),
            kind_of(line@) == LineKind::Command ==> out@.len() == 0,
            kind_of(line@) != LineKind::Command ==> out@.len() == 1 && draws_prompt(
                out@[0]@,
                old(engine)@.clients[old(self)@.id as int].terminal,
            ),
    {
        let mut out: Vec<String> = Vec::new();
        match classify_line(line.as_str()) {
            LineKind::Empty => {
                out.push(engine.draw_prompt(self.id));
                self.state = SessionState::Draining;
            },
            LineKind::Command => {
                engine.submit(CmdMessage::new(self.id, line));
                self.state = SessionState::Dispatching;
            },
            LineKind::Chat => {
                out.push(engine.draw_prompt(self.id));
                engine.speak(self.id, line);
                self.state = SessionState::Draining;
            },
        }
        out
    }

    /// Handles what a read gave, in a session that waits for a line; in any
    /// other state nothing happens. A closed connection, an empty read or
    /// an interrupt signal ends the session in good order, with the
    /// farewell in the chat pane and the terminal given back. A failed read
    /// ends it without a word. No data for now, and data that does not end
    /// a line, which is kept, leave the session ready to show what came in.
    /// Data that ends a line completes it: the line is everything kept so
    /// far and the data, as text, without the line break, and it is handled
    /// as `on_line` says.
    pub fn on_read(&mut self, engine: &mut ServerEngine, input: Input) -> (out: Vec<String>)
        requires
            old(engine).wf(),
            old(engine)@.knows(old(self)@.id),
        ensures
            final(engine).wf(),
            final(engine)@.clients.len() == old(engine)@.clients.len(),
            final(engine)@.channels == old(engine)@.channels,
            final(self)@.id == old(self)@.id,
            old(self)@.state != SessionState::AwaitingLine ==> {
                &&& final(engine)@ == old(engine)@
                &&& final(self)@ == old(self)@
                &&& out@.len() == 0
            },
            old(self)@.state == SessionState::AwaitingLine ==> match input {
                Input::Failed => {
                    &&& final(engine)@ == old(engine)@
                    &&& final(self)@ == (SessionView { state: SessionState::Closed, ..old(self)@ })
                    &&& out@.len() == 0
                },
                Input::Idle => {
                    &&& final(engine)@ == old(engine)@
                    &&& final(self)@ == (SessionView {
                        state: SessionState::Draining,
                        ..old(self)@
                    })
                    &&& out@.len() == 0
                },
                Input::End => parts(old(engine)@, old(self)@, final(engine)@, final(self)@, out@),
                Input::Data(data) => if data@.len() == 0 || is_interrupt(data@) {
                    parts(old(engine)@, old(self)@, final(engine)@, final(self)@, out@)
                } else if ends_line(data@) {
                    let line = line_of(old(self)@.buffer + data@);
                    &&& final(engine)@ == old(engine)@.after_line(old(self)@.id, line)
                    &&& final(self)@ == (SessionView {
                        buffer: Seq::empty(),
                        state: state_after_line(line),
                        ..old(self)@
                    })
                    &&& kind_of(line) == LineKind::Command ==> out@.len() == 0
                    &&& kind_of(line) != LineKind::Command ==> out@.len() == 1 && draws_prompt(
                        out@[0]@,
                        old(engine)@.clients[old(self)@.id as int].terminal,
                    )
                } else {
                    &&& final(engine)@ == old(engine)@
                    &&& final(self)@ == (SessionView {
                        buffer: old(self)@.buffer + data@,
                        state: SessionState::Draining,
                        ..old(self)@
                    })
                    &&& out@.len() == 0
                },
            },
    {
        if self.state != SessionState::AwaitingLine {
            return Vec::new();
        }
        match input {
            Input::Failed => {
                self.state = SessionState::Closed;
                Vec::new()
            },
            Input::Idle => {
                self.state = SessionState::Draining;
                Vec::new()
            },
            Input::End => self.part(engine),
            Input::Data(data) => {
                if data.len() == 0 || is_ctrl_c(data.as_slice()) {
                    return self.part(engine);
                }
                match frame(&mut self.buffer, data.as_slice()) {
                    None => {
                        self.state = SessionState::Draining;
                        Vec::new()
                    },
                    Some(whole) => {
                        let line = read_line(whole.as_slice());
                        self.on_line(engine, line)
                    },
                }
            },
        }
    }

    fn part(&mut self, engine: &mut ServerEngine) -> (out: Vec<String>)
        requires
            old(engine).wf(),
            old(engine)@.knows(old(self)@.id),
        ensures
            final(engine).wf(),
            final(engine)@.clients.len() == old(engine)@.clients.len(),
            final(engine)@.channels == old(engine)@.channels,
            parts(old(engine)@, old(self)@, final(engine)@, final(self)@, out@),
    {
        let label = paint_bold_blue("SERVER");
        proof {
            reveal_strlit("SERVER");
            lemma_no_escape_no_reset(server_name());
        }
        self.close(engine, label)
    }

    /// Draws the prompt again once the dispatcher has had its time, in a
    /// session that waits for the dispatcher; in any other state nothing
    /// happens.
    pub fn on_delay(&mut self, engine: &mut ServerEngine) -> (out: Vec<String>)
        requires
            old(engine)@.knows(old(self)@.id),
        ensures
            final(engine)@ == old(engine)@,
            old(self)@.state != SessionState::Dispatching ==> final(self)@ == old(self)@
                && out@.len() == 0,
            old(self)@.state == SessionState::Dispatching ==> {
                &&& final(self)@ == (SessionView { state: SessionState::Draining, ..old(self)@ })
                &&& out@.len() == 1
                &&& draws_prompt(out@[0]@, old(engine)@.clients[old(self)@.id as int].terminal)
            },
    {
        let mut out: Vec<String> = Vec::new();
        if self.state == SessionState::Dispatching {
            out.push(engine.draw_prompt(self.id));
            self.state = SessionState::Draining;
        }
        out
    }

    /// Shows what came in on the client's bus, in a session that is ready
    /// to do so; in any other state nothing happens. Each message is taken
    /// off the bus, oldest first, and scrolled into the chat pane, and the
    /// terminal is drawn after each one.
    pub fn drain(&mut self, engine: &mut ServerEngine) -> (out: Vec<String>)
        requires
            old(engine).wf(),
            old(engine)@.knows(old(self)@.id),
        ensures
            final(engine).wf(),
            final(engine)@.clients.len() == old(engine)@.clients.len(),
            final(engine)@.channels == old(engine)@.channels,
            final(engine)@.commands == old(engine)@.commands,
            old(self)@.state != SessionState::Draining ==> {
                &&& final(engine)@ == old(engine)@
                &&& final(self)@ == old(self)@
                &&& out@.len() == 0
            },
            old(self)@.state == SessionState::Draining ==> {
                let id = old(self)@.id;
                let waiting = old(engine)@.clients[id as int].inbox.len();
                &&& final(engine)@ == old(engine)@.caught_up(id, waiting)
                &&& final(self)@ == (SessionView {
                    state: SessionState::AwaitingLine,
                    ..old(self)@
                })
                &&& final(engine)@.clients[id as int].inbox.len() == 0
                &&& out@.len() == waiting
                &&& forall|i: int|
                    0 <= i < waiting ==> draws_terminal(
                        (#[trigger] out@[i])@,
                        old(engine)@.caught_up(id, (i + 1) as nat).clients[id as int].terminal,
                    )
            },
    {
        let mut out: Vec<String> = Vec::new();
        if self.state != SessionState::Draining {
            return out;
        }
        let id = self.id;
        let ghost start = engine@;
        let ghost waiting = start.clients[id as int].inbox.len();
        loop
            invariant
                start == old(engine)@,
                id == self.id,
                *self == *old(self),
                start.knows(id),
                waiting == start.clients[id as int].inbox.len(),
                engine.wf(),
                out@.len() <= waiting,
                engine@ == start.caught_up(id, out@.len()),
                forall|i: int|
                    0 <= i < out@.len() ==> draws_terminal(
                        (#[trigger] out@[i])@,
                        start.caught_up(id, (i + 1) as nat).clients[id as int].terminal,
                    ),
            ensures
                engine.wf(),
                *self == *old(self),
                out@.len() == waiting,
                engine@ == start.caught_up(id, waiting),
                forall|i: int|
                    0 <= i < waiting ==> draws_terminal(
                        (#[trigger] out@[i])@,
                        start.caught_up(id, (i + 1) as nat).clients[id as int].terminal,
                    ),
            decreases waiting - out@.len(),
        {
            proof {
                lemma_caught_up(start, id, out@.len());
            }
            match engine.take_message(id) {
                None => {
                    break ;
                },
                Some(msg) => {
                    engine.show(id, msg);
                    let drawn = engine.draw_terminal(id);
                    out.push(drawn);
                },
            }
        }
        proof {
            lemma_caught_up(start, id, waiting);
        }
        self.state = SessionState::AwaitingLine;
        out
    }
}

/// Whether a session ended in good order: the farewell is in the client's
/// chat pane under the server's label, as painting in bold blue may leave
/// it, the session is closed, and what is to be written is the sequence
/// that gives the terminal back.
pub open spec fn parts(
    e: EngineView,
    s: SessionView,
    after: EngineView,
    closed: SessionView,
    out: Seq<String>,
) -> bool {
    &&& closed == (SessionView { state: SessionState::Closed, ..s })
    &&& out.len() == 1
    &&& out[0]@ == restore_screen()
    &&& {
        ||| after == e.shown(
            s.id,
            ChatMessageView { nick: server_name(), payload: farewell_text() },
        )
        ||| after == e.shown(
            s.id,
            ChatMessageView {
                nick: bold_blue_code() + server_name() + reset_code(),
                payload: farewell_text(),
            },
        )
        ||| after == e.shown(
            s.id,
            ChatMessageView { nick: server_name() + reset_code(), payload: farewell_text() },
        )
    }
}

} // verus!
