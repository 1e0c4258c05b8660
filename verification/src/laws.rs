//! What holds of the server whatever state it is in.

use crate::channel::{has_name, lemma_named_at, named_at};
use crate::command::{
    answers, carried_out, listing, planned, request_of, verb_of, ReplyView, RequestView, Verb,
};
use crate::dispatcher::{answered, drains_to, steps_to};
use crate::message::ChatMessageView;
use crate::model::{
    lemma_joined_wf, lemma_opened_wf, lemma_renamed_wf, lemma_without_subscriber, EngineView,
};
use crate::paint::{has_reset, lemma_paints_within_holds_text, yellow_code};
use crate::text::{lemma_index_of_is, lemma_strip_leading_is};
use vstd::prelude::*;

verus! {

/// A command line made of a slash, a verb, one space and an argument, where
/// neither the verb nor the argument holds a space and the verb does not
/// start with a slash, is read as that verb with that argument.
pub proof fn law_command_line_fields(verb: Seq<char>, arg: Seq<char>)
    requires
        forall|i: int| 0 <= i < verb.len() ==> verb[i] != ' ',
        forall|i: int| 0 <= i < arg.len() ==> arg[i] != ' ',
        verb.len() > 0 ==> verb[0] != '/',
    ensures
        request_of(seq!['/'] + verb + seq![' '] + arg) == (RequestView {
            verb,
            arg: Some(arg),
            rest: None,
        }),
{
    let line = seq!['/'] + verb + seq![' '] + arg;
    let body = verb + seq![' '] + arg;
    assert(line.skip(1) =~= body);
    lemma_strip_leading_is(line, '/', 1);
    lemma_index_of_is(body, ' ', verb.len() as int);
    assert(body.take(verb.len() as int) =~= verb);
    assert(body.skip(verb.len() as int + 1) =~= arg);
    lemma_index_of_is(arg, ' ', arg.len() as int);
}

/// A command line made of a slash and a verb alone, where the verb holds
/// no space and does not start with a slash, is read as that verb without
/// an argument.
pub proof fn law_bare_command_line(verb: Seq<char>)
    requires
        forall|i: int| 0 <= i < verb.len() ==> verb[i] != ' ',
        verb.len() > 0 ==> verb[0] != '/',
    ensures
        request_of(seq!['/'] + verb) == (RequestView { verb, arg: None, rest: None }),
{
    let line = seq!['/'] + verb;
    assert(line.skip(1) =~= verb);
    lemma_strip_leading_is(line, '/', 1);
    lemma_index_of_is(verb, ' ', verb.len() as int);
}

/// What a message does to the clients when it goes to a list of
/// subscribers that names each of them at most once: those on the list get
/// it at the end of their inbox, the others keep their inbox, and nothing
/// else changes for anyone.
pub proof fn law_fan_out(e: EngineView, subscribers: Seq<usize>, msg: ChatMessageView, c: usize)
    requires
        e.knows(c),
        subscribers.no_duplicates(),
    ensures
        e.fanned_out(subscribers, msg).channels == e.channels,
        e.fanned_out(subscribers, msg).commands == e.commands,
        e.fanned_out(subscribers, msg).clients.len() == e.clients.len(),
        subscribers.contains(c) ==> e.fanned_out(subscribers, msg).clients[c as int]
            == e.clients[c as int].receiving(msg),
        !subscribers.contains(c) ==> e.fanned_out(subscribers, msg).clients[c as int]
            == e.clients[c as int],
    decreases subscribers.len(),
{
    if subscribers.len() > 0 {
        let init = subscribers.drop_last();
        let last = subscribers.last();
        law_fan_out(e, init, msg, c);
        if subscribers.contains(c) && c != last {
            let j = choose|j: int| 0 <= j < subscribers.len() && subscribers[j] == c;
            assert(init[j] == c);
        }
    }
}

/// Once a client has taken a nick, what it says next reaches its channel
/// under that nick: every client of the channel, the speaker among them,
/// finds the payload under the new nick at the end of its inbox, and no
/// other client's inbox changes.
pub proof fn law_nick_then_chat(
    e: EngineView,
    id: usize,
    request: RequestView,
    nick: Seq<char>,
    payload: Seq<char>,
    c: usize,
)
    requires
        e.wf(),
        e.knows(id),
        e.knows(c),
        request.arg == Some(nick),
    ensures
        ({
            let named = carried_out(e, id, Verb::Nick, request).engine;
            let said = named.spoken(id, payload);
            let line = ChatMessageView { nick, payload };
            &&& named.clients[id as int].nick == nick
            &&& e.clients[c as int].channel == e.clients[id as int].channel
                ==> said.clients[c as int].inbox == e.clients[c as int].inbox.push(line)
            &&& e.clients[c as int].channel != e.clients[id as int].channel
                ==> said.clients[c as int].inbox == e.clients[c as int].inbox
        }),
{
    let named = carried_out(e, id, Verb::Nick, request).engine;
    let at = e.clients[id as int].channel as int;
    law_fan_out(named, e.channels[at].subscribers, ChatMessageView { nick, payload }, c);
}

/// A command line `/<verb> <nick>`, with a verb that reads as `nick` and a
/// nick without spaces, gives the client exactly that nick.
pub proof fn law_nick_line(e: EngineView, id: usize, verb: Seq<char>, nick: Seq<char>)
    requires
        e.wf(),
        e.knows(id),
        verb_of(verb) == Verb::Nick,
        forall|i: int| 0 <= i < verb.len() ==> verb[i] != ' ',
        forall|i: int| 0 <= i < nick.len() ==> nick[i] != ' ',
        verb.len() > 0 ==> verb[0] != '/',
    ensures
        planned(e, id, seq!['/'] + verb + seq![' '] + nick).engine == e.renamed(id, nick),
        planned(e, id, seq!['/'] + verb + seq![' '] + nick).engine.clients[id as int].nick == nick,
        planned(e, id, seq!['/'] + verb + seq![' '] + nick).replies == seq![
            ReplyView::NickChanged(nick),
        ],
{
    law_command_line_fields(verb, nick);
}

/// Joining a channel whose name no channel has yet makes exactly one
/// channel of that name, at the end of the registry. The client is then in
/// it and on its list, and no longer on the list of the channel it came
/// from; and a listing shows the new channel with at least one subscriber.
pub proof fn law_join_creates_channel(e: EngineView, id: usize, request: RequestView, name: Seq<char>)
    requires
        e.wf(),
        e.knows(id),
        e.channels.len() < usize::MAX,
        request.arg == Some(name),
        !has_name(e.channels, name),
    ensures
        ({
            let plan = carried_out(e, id, Verb::Join, request);
            let after = plan.engine;
            let made = e.channels.len() as int;
            let prior = e.clients[id as int].channel as int;
            &&& after.wf()
            &&& plan.replies == seq![ReplyView::Joined(name)]
            &&& after.channels.len() == made + 1
            &&& forall|k: int|
                0 <= k < after.channels.len() ==> ((#[trigger] after.channels[k]).name == name
                    <==> k == made)
            &&& after.clients[id as int].channel == made
            &&& after.channels[made].subscribers.contains(id)
            &&& !after.channels[prior].subscribers.contains(id)
            &&& listing(after.channels)[made] == ReplyView::ChannelInfo(
                name,
                after.channels[made].subscribers.len() as usize,
            )
            &&& after.channels[made].subscribers.len() >= 1
        }),
{
    let ready = e.opened(name);
    let prior = e.clients[id as int].channel as int;
    lemma_opened_wf(e, name);
    lemma_joined_wf(e, id, name);
    lemma_without_subscriber(ready.channels[prior], id);
}

/// Joining a channel that exists adds no channel and changes no channel's
/// name: the registry has the same names at the same positions, and the
/// client is in the channel that had the name.
pub proof fn law_join_existing_adds_no_channel(
    e: EngineView,
    id: usize,
    request: RequestView,
    name: Seq<char>,
)
    requires
        e.wf(),
        e.knows(id),
        request.arg == Some(name),
        has_name(e.channels, name),
    ensures
        ({
            let after = carried_out(e, id, Verb::Join, request).engine;
            &&& after.wf()
            &&& after.channels.len() == e.channels.len()
            &&& forall|k: int|
                0 <= k < e.channels.len() ==> (#[trigger] after.channels[k]).name
                    == e.channels[k].name
            &&& after.clients[id as int].channel == named_at(e.channels, name)
            &&& after.channels[named_at(e.channels, name)].name == name
        }),
{
    lemma_named_at(e.channels, name);
    lemma_opened_wf(e, name);
    lemma_joined_wf(e, id, name);
}

/// No command ever leaves two channels with one name, whatever the verb
/// and the request.
pub proof fn law_names_stay_unique(e: EngineView, id: usize, verb: Verb, request: RequestView)
    requires
        e.wf(),
        e.knows(id),
        e.channels.len() < usize::MAX,
    ensures
        carried_out(e, id, verb, request).engine.wf(),
        forall|k: int, l: int|
            0 <= k < l < carried_out(e, id, verb, request).engine.channels.len() ==> (
            #[trigger] carried_out(e, id, verb, request).engine.channels[k]).name != (
            #[trigger] carried_out(e, id, verb, request).engine.channels[l]).name,
{
    match verb {
        Verb::Nick => {
            if let Some(nick) = request.arg {
                lemma_renamed_wf(e, id, nick);
            }
        },
        Verb::Join => {
            if let Some(name) = request.arg {
                lemma_joined_wf(e, id, name);
            }
        },
        _ => {},
    }
}

/// No command takes a client or a channel away, gives one of them another
/// id, or gives a channel another name: the registries only grow, and the
/// default channel stays where it is.
pub proof fn law_registries_only_grow(e: EngineView, id: usize, verb: Verb, request: RequestView)
    requires
        e.wf(),
        e.knows(id),
    ensures
        ({
            let after = carried_out(e, id, verb, request).engine;
            &&& after.clients.len() == e.clients.len()
            &&& after.channels.len() >= e.channels.len()
            &&& after.commands == e.commands
            &&& forall|c: int|
                0 <= c < e.clients.len() ==> (#[trigger] after.clients[c]).id == e.clients[c].id
            &&& forall|k: int|
                0 <= k < e.channels.len() ==> (#[trigger] after.channels[k]).id == e.channels[k].id
                    && after.channels[k].name == e.channels[k].name
        }),
{
    if verb == Verb::Join {
        if let Some(name) = request.arg {
            let ready = e.opened(name);
            lemma_named_at(ready.channels, name);
            if has_name(e.channels, name) {
                lemma_named_at(e.channels, name);
            } else {
                assert(ready.channels[e.channels.len() as int].name == name);
            }
        }
    }
}

/// What a client says goes to every client of its channel and to nobody
/// else: a client of the same channel finds the payload, under the
/// speaker's nick, at the end of its inbox; any other client's inbox is as
/// it was; and nothing but inboxes changes.
pub proof fn law_chat_stays_in_channel(e: EngineView, id: usize, payload: Seq<char>, c: usize)
    requires
        e.wf(),
        e.knows(id),
        e.knows(c),
    ensures
        ({
            let said = e.spoken(id, payload);
            let line = ChatMessageView { nick: e.clients[id as int].nick, payload };
            &&& said.channels == e.channels
            &&& said.commands == e.commands
            &&& said.clients.len() == e.clients.len()
            &&& e.clients[c as int].channel == e.clients[id as int].channel
                ==> said.clients[c as int] == e.clients[c as int].receiving(line)
            &&& e.clients[c as int].channel != e.clients[id as int].channel
                ==> said.clients[c as int] == e.clients[c as int]
        }),
{
    let at = e.clients[id as int].channel as int;
    law_fan_out(
        e,
        e.channels[at].subscribers,
        ChatMessageView { nick: e.clients[id as int].nick, payload },
        c,
    );
}

/// A request for help is answered with the same four lines in the same
/// order, whatever the state, the client and the rest of the request, and
/// it changes nothing.
pub proof fn law_help_is_fixed(e: EngineView, id: usize, request: RequestView)
    ensures
        carried_out(e, id, Verb::Help, request).engine == e,
        carried_out(e, id, Verb::Help, request).replies == seq![
            ReplyView::Usage("/nick <nick>"@),
            ReplyView::Usage("/join <channel>"@),
            ReplyView::Usage("/list"@),
            ReplyView::Usage("/help"@),
        ],
        carried_out(e, id, Verb::Help, request).replies.len() == 4,
{
}

/// A verb that is not a command changes nothing and is answered with one
/// line, which names the token as it was typed.
pub proof fn law_unknown_changes_nothing(e: EngineView, id: usize, request: RequestView)
    ensures
        carried_out(e, id, Verb::Unknown, request).engine == e,
        carried_out(e, id, Verb::Unknown, request).replies == seq![
            ReplyView::Invalid(request.verb),
        ],
{
}

/// The server's message about a token that is not a command holds the
/// token, in one piece, at the position that this function returns. This
/// is said of a token that holds no reset sequence.
pub proof fn law_invalid_reply_holds_token(msg: ChatMessageView, token: Seq<char>) -> (at: int)
    requires
        answers(msg, ReplyView::Invalid(token)),
        !has_reset(token),
    ensures
        0 <= at,
        at + token.len() <= msg.payload.len(),
        msg.payload.subrange(at, at + token.len()) == token,
{
    let reply = ReplyView::Invalid(token);
    lemma_paints_within_holds_text(msg.payload, reply.lead(), token, yellow_code(), reply.tail())
}

/// A listing changes nothing, and a second listing right after it, once
/// the client has been answered, gives the same lines in the same order.
pub proof fn law_list_repeats(
    e: EngineView,
    id: usize,
    first: RequestView,
    second: RequestView,
    after: EngineView,
)
    requires
        e.knows(id),
        answered(
            carried_out(e, id, Verb::List, first).engine,
            after,
            id,
            carried_out(e, id, Verb::List, first).replies,
        ),
    ensures
        carried_out(e, id, Verb::List, first).engine == e,
        carried_out(e, id, Verb::List, first).replies == listing(e.channels),
        carried_out(after, id, Verb::List, second).replies == carried_out(
            e,
            id,
            Verb::List,
            first,
        ).replies,
{
}

/// With one command on the bus, draining the bus is carrying out that one
/// command and answering the client that issued it.
pub proof fn law_one_command_one_step(e: EngineView, last: EngineView)
    requires
        e.commands.len() == 1,
    ensures
        drains_to(e, last) <==> steps_to(e, last) && last.commands.len() == 0,
{
    if drains_to(e, last) {
        let next = choose|next: EngineView| #[trigger]
            steps_to(e, next) && next.commands.len() < e.commands.len() && drains_to(next, last);
    }
    if steps_to(e, last) && last.commands.len() == 0 {
        assert(steps_to(e, last) && last.commands.len() < e.commands.len() && drains_to(
            last,
            last,
        ));
    }
}

} // verus!
