//! Command lines: how they are read, what they do to the shared state, and
//! what the server answers.

use crate::channel::ChannelView;
use crate::engine::ServerEngine;
use crate::message::{ChatMessage, ChatMessageView};
use crate::model::EngineView;
use crate::paint::{
    bold_blue_code, escape, lemma_no_escape_no_reset, lemma_paints_within, paint_bold_blue,
    paint_yellow, painted, paints_within, reset_code, yellow_code,
};
use crate::text::{
    decimal, fields, find_from, leading_run, lemma_index_of, lowercase, lowercase_of,
    push_decimal, string_of, strip_leading, to_chars,
};
use vstd::prelude::*;
use vstd::string::StringExecFns;

verus! {

/// What a command line asks for.
#[derive(Clone, Copy, Debug, PartialEq, Eq, Structural)]
pub enum Verb {
    Nick,
    Join,
    List,
    Help,
    Unknown,
}

/// The verb that a token in lower case names.
pub open spec fn verb_for(lowered: Seq<char>) -> Verb {
    if lowered == "nick"@ {
        Verb::Nick
    } else if lowered == "join"@ {
        Verb::Join
    } else if lowered == "list"@ {
        Verb::List
    } else if lowered == "help"@ {
        Verb::Help
    } else {
        Verb::Unknown
    }
}

/// The verb that a token names, whatever its case.
pub open spec fn verb_of(token: Seq<char>) -> Verb {
    verb_for(lowercase_of(token))
}

/// The verb that `lowered`, a token already in lower case, names.
pub fn verb_named(lowered: &str) -> (verb: Verb)
    ensures
        verb == verb_for(lowered@),
{
    let token = lowered.to_string();
    if token == "nick".to_string() {
        Verb::Nick
    } else if token == "join".to_string() {
        Verb::Join
    } else if token == "list".to_string() {
        Verb::List
    } else if token == "help".to_string() {
        Verb::Help
    } else {
        Verb::Unknown
    }
}

/// The verb that `token` names once it is put in lower case.
pub fn resolve_verb(token: &str) -> (verb: Verb)
    ensures
        verb == verb_of(token@),
{
    let lowered = lowercase(token);
    verb_named(lowered.as_str())
}

/// A command line cut into its fields.
#[derive(Debug)]
pub struct Request {
    /// The first field, as it was typed.
    pub verb: String,
    /// The second field, where the line has one.
    pub arg: Option<String>,
    /// Whatever follows the second field, where anything does.
    pub rest: Option<String>,
}

/// A request as plain text.
pub struct RequestView {
    pub verb: Seq<char>,
    pub arg: Option<Seq<char>>,
    pub rest: Option<Seq<char>>,
}

/// The text that an optional string holds.
pub open spec fn text_of(s: Option<String>) -> Option<Seq<char>> {
    match s {
        Some(s) => Some(s@),
        None => None,
    }
}

impl View for Request {
    type V = RequestView;

    open spec fn view(&self) -> RequestView {
        RequestView { verb: self.verb@, arg: text_of(self.arg), rest: text_of(self.rest) }
    }
}

/// The request that a command line makes: the slashes at its start are
/// dropped, and what is left is cut at single spaces into a verb, an
/// argument, and the rest.
pub open spec fn request_of(payload: Seq<char>) -> RequestView {
    let parts = fields(strip_leading(payload, '/'));
    RequestView {
        verb: parts[0],
        arg: if parts.len() > 1 {
            Some(parts[1])
        } else {
            None
        },
        rest: if parts.len() > 2 {
            Some(parts[2])
        } else {
            None
        },
    }
}

/// Cuts a command line into its fields.
pub fn parse_command(payload: &str) -> (request: Request)
    ensures
        request@ == request_of(payload@),
{
    let chars = to_chars(payload);
    let start = leading_run(&chars, '/');
    let ghost line = chars@.skip(start as int);
    let len = chars.len();
    let i = find_from(&chars, start, ' ');
    proof {
        lemma_index_of(line, ' ');
    }
    if i == len {
        return Request { verb: string_of(&chars, start, len), arg: None, rest: None };
    }
    let ghost tail = line.skip(i - start + 1);
    let j = find_from(&chars, i + 1, ' ');
    proof {
        assert(chars@.subrange(start as int, i as int) =~= line.take(i - start));
        assert(chars@.subrange(i + 1, len as int) =~= tail);
        assert(chars@.subrange(i + 1, j as int) =~= tail.take(j - i - 1));
        if j < len {
            assert(chars@.subrange(j + 1, len as int) =~= tail.skip(j - i));
        }
    }
    let verb = string_of(&chars, start, i);
    if j == len {
        return Request { verb, arg: Some(string_of(&chars, i + 1, len)), rest: None };
    }
    Request {
        verb,
        arg: Some(string_of(&chars, i + 1, j)),
        rest: Some(string_of(&chars, j + 1, len)),
    }
}

/// One line that the server sends back to the client that issued a
/// command, before it is coloured.
#[derive(Debug)]
pub enum Reply {
    /// The command lacks its argument; the text is how the command is used.
    Required(String),
    /// The client's nick is now this one.
    NickChanged(String),
    /// The client is now in the channel of this name.
    Joined(String),
    /// A channel of this name has this many subscribers.
    ChannelInfo(String, usize),
    /// How one of the commands is used.
    Usage(String),
    /// No command goes by this token.
    Invalid(String),
}

/// A reply as plain values.
pub enum ReplyView {
    Required(Seq<char>),
    NickChanged(Seq<char>),
    Joined(Seq<char>),
    ChannelInfo(Seq<char>, usize),
    Usage(Seq<char>),
    Invalid(Seq<char>),
}

impl View for Reply {
    type V = ReplyView;

    open spec fn view(&self) -> ReplyView {
        match *self {
            Reply::Required(s) => ReplyView::Required(s@),
            Reply::NickChanged(s) => ReplyView::NickChanged(s@),
            Reply::Joined(s) => ReplyView::Joined(s@),
            Reply::ChannelInfo(s, n) => ReplyView::ChannelInfo(s@, n),
            Reply::Usage(s) => ReplyView::Usage(s@),
            Reply::Invalid(s) => ReplyView::Invalid(s@),
        }
    }
}

impl ReplyView {
    /// The plain words that open the line.
    pub open spec fn lead(self) -> Seq<char> {
        match self {
            ReplyView::Required(_) => "Command Error: "@,
            ReplyView::NickChanged(_) => "Command Success: Nickname changed to "@,
            ReplyView::Joined(_) => "Command Success: Joined "@,
            ReplyView::ChannelInfo(_, _) => "channel: "@,
            ReplyView::Usage(_) => Seq::empty(),
            ReplyView::Invalid(_) => "Command Error: "@,
        }
    }

    /// The term that is set off in yellow.
    pub open spec fn accent(self) -> Seq<char> {
        match self {
            ReplyView::Required(s) => s,
            ReplyView::NickChanged(s) => s,
            ReplyView::Joined(s) => s,
            ReplyView::ChannelInfo(s, _) => s,
            ReplyView::Usage(s) => s,
            ReplyView::Invalid(s) => s,
        }
    }

    /// The plain words that follow the term.
    pub open spec fn tail(self) -> Seq<char> {
        match self {
            ReplyView::Required(_) => " is required"@,
            ReplyView::ChannelInfo(_, _) => " users: "@,
            ReplyView::Invalid(_) => " is not a valid command"@,
            _ => Seq::empty(),
        }
    }

    /// The number that closes the line, where the line has one; it is set
    /// off in yellow too.
    pub open spec fn count(self) -> Option<Seq<char>> {
        match self {
            ReplyView::ChannelInfo(_, n) => Some(decimal(n as nat)),
            _ => None,
        }
    }

    /// The line, given what its term and its number look like once they
    /// are coloured. A line without a number takes an empty `count`.
    pub open spec fn text(self, accent: Seq<char>, count: Seq<char>) -> Seq<char> {
        self.lead() + accent + self.tail() + count
    }
}

/// The label under which the server speaks.
pub open spec fn server_name() -> Seq<char> {
    "SERVER"@
}

/// Whether `payload` is the line of `reply`, with its term, and its number
/// where it has one, each as painting in yellow may leave it.
pub open spec fn renders(payload: Seq<char>, reply: ReplyView) -> bool {
    match reply.count() {
        None => paints_within(payload, reply.lead(), reply.accent(), yellow_code(), reply.tail()),
        Some(n) => {
            ||| paints_within(
                payload,
                reply.lead(),
                reply.accent(),
                yellow_code(),
                reply.tail() + n,
            )
            ||| paints_within(
                payload,
                reply.lead(),
                reply.accent(),
                yellow_code(),
                reply.tail() + (yellow_code() + n + reset_code()),
            )
            ||| paints_within(
                payload,
                reply.lead(),
                reply.accent(),
                yellow_code(),
                reply.tail() + (n + reset_code()),
            )
        },
    }
}

/// Whether `msg` is the server's message for `reply`: the server's label,
/// as painting in bold blue may leave it, and the reply's line.
pub open spec fn answers(msg: ChatMessageView, reply: ReplyView) -> bool {
    painted(msg.nick, server_name(), bold_blue_code()) && renders(msg.payload, reply)
}

/// A decimal numeral holds no escape character.
pub proof fn lemma_decimal_is_plain(n: nat)
    ensures
        forall|i: int| 0 <= i < decimal(n).len() ==> decimal(n)[i] != escape(),
    decreases n,
{
    if n >= 10 {
        lemma_decimal_is_plain(n / 10);
        assert forall|i: int| 0 <= i < decimal(n).len() implies decimal(n)[i] != escape() by {
            if i < decimal(n / 10).len() {
                assert(decimal(n)[i] == decimal(n / 10)[i]);
            }
        }
    }
}

impl Reply {
    /// The message for this reply, given the server's label, the reply's
    /// term and the reply's number as they look once they are coloured. A
    /// reply without a number takes an empty `count`.
    pub fn compose(&self, label: String, accent: String, count: String) -> (msg: ChatMessage)
        ensures
            msg@ == (ChatMessageView {
                nick: label@,
                payload: self@.text(accent@, count@),
            }),
    {
        let mut payload = String::new();
        match self {
            Reply::Required(_) => {
                payload.append("Command Error: ");
                payload.append(accent.as_str());
                payload.append(" is required");
            },
            Reply::NickChanged(_) => {
                payload.append("Command Success: Nickname changed to ");
                payload.append(accent.as_str());
            },
            Reply::Joined(_) => {
                payload.append("Command Success: Joined ");
                payload.append(accent.as_str());
            },
            Reply::ChannelInfo(_, _) => {
                payload.append("channel: ");
                payload.append(accent.as_str());
                payload.append(" users: ");
            },
            Reply::Usage(_) => {
                payload.append(accent.as_str());
            },
            Reply::Invalid(_) => {
                payload.append("Command Error: ");
                payload.append(accent.as_str());
                payload.append(" is not a valid command");
            },
        }
        payload.append(count.as_str());
        ChatMessage::new(label, payload)
    }

    /// The message that the server sends for this reply, in the colours of
    /// the moment.
    pub fn render(&self) -> (msg: ChatMessage)
        ensures
            answers(msg@, self@),
    {
        let label = paint_bold_blue("SERVER");
        let (accent, count) = match self {
            Reply::Required(s) => (paint_yellow(s.as_str()), String::new()),
            Reply::NickChanged(s) => (paint_yellow(s.as_str()), String::new()),
            Reply::Joined(s) => (paint_yellow(s.as_str()), String::new()),
            Reply::ChannelInfo(s, n) => {
                let mut numeral = String::new();
                push_decimal(&mut numeral, *n);
                (paint_yellow(s.as_str()), paint_yellow(numeral.as_str()))
            },
            Reply::Usage(s) => (paint_yellow(s.as_str()), String::new()),
            Reply::Invalid(s) => (paint_yellow(s.as_str()), String::new()),
        };
        proof {
            let view = self@;
            lemma_paints_within(
                view.lead(),
                accent@,
                view.tail() + count@,
                view.accent(),
                yellow_code(),
            );
            assert(view.text(accent@, count@) =~= view.lead() + accent@ + (view.tail() + count@));
            if let Some(n) = view.count() {
                lemma_decimal_is_plain(self->ChannelInfo_1 as nat);
                lemma_no_escape_no_reset(n);
            }
        }
        self.compose(label, accent, count)
    }
}

/// The replies that a run of `Reply` values holds.
pub open spec fn reply_views(replies: Seq<Reply>) -> Seq<ReplyView> {
    Seq::new(replies.len(), |i: int| replies[i]@)
}

/// One more reply at the end of the run is one more at the end of what it
/// holds.
pub proof fn lemma_reply_views_push(replies: Seq<Reply>, reply: Reply)
    ensures
        reply_views(replies.push(reply)) == reply_views(replies).push(reply@),
{
}

/// What a command comes to: the shared state after it, and the replies for
/// the client that issued it.
pub struct Plan {
    pub engine: EngineView,
    pub replies: Seq<ReplyView>,
}

/// One line for each channel, in the order of the registry: its name and
/// the number of its subscribers.
pub open spec fn listing(channels: Seq<ChannelView>) -> Seq<ReplyView> {
    Seq::new(
        channels.len(),
        |k: int| ReplyView::ChannelInfo(channels[k].name, channels[k].subscribers.len() as usize),
    )
}

/// The four lines that say how the commands are used.
pub open spec fn usage() -> Seq<ReplyView> {
    seq![
        ReplyView::Usage("/nick <nick>"@),
        ReplyView::Usage("/join <channel>"@),
        ReplyView::Usage("/list"@),
        ReplyView::Usage("/help"@),
    ]
}

/// What the request `request` of the client `id` comes to when its verb is
/// `verb`.
pub open spec fn carried_out(e: EngineView, id: usize, verb: Verb, request: RequestView) -> Plan {
    match verb {
        Verb::Nick => match request.arg {
            None => Plan { engine: e, replies: seq![ReplyView::Required("/nick <nick>"@)] },
            Some(nick) => Plan {
                engine: e.renamed(id, nick),
                replies: seq![ReplyView::NickChanged(nick)],
            },
        },
        Verb::Join => match request.arg {
            None => Plan { engine: e, replies: seq![ReplyView::Required("/join <channel>"@)] },
            Some(name) => Plan {
                engine: e.joined(id, name),
                replies: seq![ReplyView::Joined(name)],
            },
        },
        Verb::List => Plan { engine: e, replies: listing(e.channels) },
        Verb::Help => Plan { engine: e, replies: usage() },
        Verb::Unknown => Plan { engine: e, replies: seq![ReplyView::Invalid(request.verb)] },
    }
}

/// What the command line `payload` of the client `id` comes to.
pub open spec fn planned(e: EngineView, id: usize, payload: Seq<char>) -> Plan {
    let request = request_of(payload);
    carried_out(e, id, verb_of(request.verb), request)
}

fn one_reply(reply: Reply) -> (replies: Vec<Reply>)
    ensures
        reply_views(replies@) == seq![reply@],
{
    let mut replies: Vec<Reply> = Vec::new();
    replies.push(reply);
    replies
}

/// Carries out the request `request` of the client `id` under the verb
/// `verb`, and returns the replies for that client.
pub fn execute(engine: &mut ServerEngine, id: usize, verb: Verb, request: &Request) -> (replies:
    Vec<Reply>)
    requires
        old(engine).wf(),
        old(engine)@.knows(id),
    ensures
        final(engine).wf(),
        final(engine)@ == carried_out(old(engine)@, id, verb, request@).engine,
        reply_views(replies@) == carried_out(old(engine)@, id, verb, request@).replies,
        final(engine)@.clients.len() == old(engine)@.clients.len(),
        final(engine)@.channels.len() >= old(engine)@.channels.len(),
        final(engine)@.commands == old(engine)@.commands,
{
    match verb {
        Verb::Nick => match &request.arg {
            None => one_reply(Reply::Required("/nick <nick>".to_string())),
            Some(nick) => {
                engine.rename(id, nick.clone());
                one_reply(Reply::NickChanged(nick.clone()))
            },
        },
        Verb::Join => match &request.arg {
            None => one_reply(Reply::Required("/join <channel>".to_string())),
            Some(name) => {
                engine.join(id, name.clone());
                one_reply(Reply::Joined(name.clone()))
            },
        },
        Verb::List => {
            let channels = engine.channels();
            let mut replies: Vec<Reply> = Vec::new();
            let mut k: usize = 0;
            while k < channels.len()
                invariant
                    k <= channels@.len(),
                    channels@ == engine@.channels,
                    reply_views(replies@) == listing(channels@).take(k as int),
                decreases channels@.len() - k,
            {
                let channel = &channels.list[k];
                let reply = Reply::ChannelInfo(channel.name.clone(), channel.subscribers.len());
                proof {
                    lemma_reply_views_push(replies@, reply);
                }
                replies.push(reply);
                k += 1;
            }
            replies
        },
        Verb::Help => {
            let mut replies: Vec<Reply> = Vec::new();
            replies.push(Reply::Usage("/nick <nick>".to_string()));
            replies.push(Reply::Usage("/join <channel>".to_string()));
            replies.push(Reply::Usage("/list".to_string()));
            replies.push(Reply::Usage("/help".to_string()));
            replies
        },
        Verb::Unknown => one_reply(Reply::Invalid(request.verb.clone())),
    }
}

} // verus!
