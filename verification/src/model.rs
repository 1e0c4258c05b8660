//! The server's shared state as plain values, the rules that hold of it, and
//! the steps that take one state to the next.

use crate::channel::{first_at, has_name, lemma_first_at, lemma_named_at, named_at, ChannelView};
use crate::client::ClientView;
use crate::message::{ChatMessageView, CmdMessageView};
use crate::terminal::{prompt_for, ChatView, TerminalView};
use crate::text::decimal;
use vstd::prelude::*;

verus! {

/// The name of the channel that every new client joins.
pub open spec fn default_channel_name() -> Seq<char> {
    "broadcast"@
}

/// The header on every client's terminal.
pub open spec fn banner() -> Seq<char> {
    "Rust Coded IcsBoyX ChatHole server"@
}

/// The nick that a client has until it picks one.
pub open spec fn default_nick(id: usize) -> Seq<char> {
    "Anonymous-"@ + decimal(id as nat)
}

/// What a client is when it has just connected as number `id`, with the
/// channel `channel` as the one that everybody joins first.
pub open spec fn newcomer(id: usize, channel: ChannelView) -> ClientView {
    ClientView {
        id,
        nick: default_nick(id),
        inbox: Seq::empty(),
        terminal: TerminalView {
            start_cmd: Seq::empty(),
            header: banner(),
            chat: ChatView { lines: Seq::empty(), number_of_lines: 20 },
            prompt: prompt_for(channel.name),
            end_cmd: Seq::empty(),
        },
        channel: channel.id,
    }
}

/// The registries and the command bus, as plain values.
pub struct EngineView {
    pub clients: Seq<ClientView>,
    pub channels: Seq<ChannelView>,
    pub commands: Seq<CmdMessageView>,
}

impl EngineView {
    /// The rules of the shared state. Clients and channels carry their
    /// positions as ids. No two channels share a name. Every client is in
    /// one channel of the registry, stands once on that channel's list of
    /// subscribers and on no other list, and the lists name registered
    /// clients only. Every queued command comes from a registered client.
    /// Both registries can be counted in a `usize`.
    pub open spec fn wf(self) -> bool {
        &&& self.clients.len() <= usize::MAX
        &&& self.channels.len() <= usize::MAX
        &&& forall|c: int|
            0 <= c < self.clients.len() ==> {
                &&& (#[trigger] self.clients[c]).id == c
                &&& self.clients[c].channel < self.channels.len()
            }
        &&& forall|k: int|
            0 <= k < self.channels.len() ==> {
                &&& (#[trigger] self.channels[k]).id == k
                &&& self.channels[k].subscribers.no_duplicates()
            }
        &&& forall|k: int, j: int|
            0 <= k < self.channels.len() && 0 <= j < self.channels[k].subscribers.len()
                ==> #[trigger] self.channels[k].subscribers[j] < self.clients.len()
        &&& forall|k: int, l: int|
            0 <= k < l < self.channels.len() ==> (#[trigger] self.channels[k]).name != (
            #[trigger] self.channels[l]).name
        &&& forall|k: int, s: usize|
            0 <= k < self.channels.len() && s < self.clients.len() ==> (
            #[trigger] self.channels[k].subscribers.contains(s) <==> self.clients[s as int].channel
                == k)
        &&& forall|m: int|
            0 <= m < self.commands.len() ==> (#[trigger] self.commands[m]).id < self.clients.len()
    }

    /// Whether `id` is the id of a registered client.
    pub open spec fn knows(self, id: usize) -> bool {
        id < self.clients.len()
    }

    /// The state once the server has started: a registry without channels
    /// gets the default channel at position 0, any other stays as it is.
    pub open spec fn started(self) -> EngineView {
        if self.channels.len() == 0 {
            EngineView {
                channels: seq![
                    ChannelView { id: 0, name: default_channel_name(), subscribers: Seq::empty() },
                ],
                ..self
            }
        } else {
            self
        }
    }

    /// The state after one more client has connected: it is registered under
    /// the next id, is in the first channel, and stands at the end of that
    /// channel's list.
    pub open spec fn connected(self) -> EngineView {
        let id = self.clients.len() as usize;
        EngineView {
            clients: self.clients.push(newcomer(id, self.channels[0])),
            channels: self.channels.update(0, self.channels[0].with_subscriber(id)),
            ..self
        }
    }

    /// The state after the client `id` took the nick `nick`.
    pub open spec fn renamed(self, id: usize, nick: Seq<char>) -> EngineView {
        EngineView {
            clients: self.clients.update(
                id as int,
                ClientView { nick, ..self.clients[id as int] },
            ),
            ..self
        }
    }

    /// The state with a channel called `name`: where there is none yet, one
    /// without subscribers is added at the end, with its position as its id.
    pub open spec fn opened(self, name: Seq<char>) -> EngineView {
        if has_name(self.channels, name) {
            self
        } else {
            EngineView {
                channels: self.channels.push(
                    ChannelView {
                        id: self.channels.len() as usize,
                        name,
                        subscribers: Seq::empty(),
                    },
                ),
                ..self
            }
        }
    }

    /// The state after the client `id` went over to the channel at position
    /// `to`: it is taken off the list of the channel it was in, put at the
    /// end of the list of the new one, and its prompt stands for the new one.
    pub open spec fn moved(self, id: usize, to: int) -> EngineView {
        let from = self.clients[id as int].channel as int;
        let left = self.channels.update(from, self.channels[from].without_subscriber(id));
        EngineView {
            clients: self.clients.update(
                id as int,
                ClientView { channel: to as usize, ..self.clients[id as int] }.facing(
                    self.channels[to].name,
                ),
            ),
            channels: left.update(to, left[to].with_subscriber(id)),
            ..self
        }
    }

    /// The state after the client `id` joined the channel called `name`,
    /// which is made first where it does not exist.
    pub open spec fn joined(self, id: usize, name: Seq<char>) -> EngineView {
        let ready = self.opened(name);
        ready.moved(id, named_at(ready.channels, name))
    }

    /// The state after `msg` was put on the inbound bus of the client `id`.
    /// An id that is not registered changes nothing.
    pub open spec fn delivered(self, id: usize, msg: ChatMessageView) -> EngineView {
        if self.knows(id) {
            EngineView {
                clients: self.clients.update(id as int, self.clients[id as int].receiving(msg)),
                ..self
            }
        } else {
            self
        }
    }

    /// The state after `msg` was put on the bus of each of `subscribers`, in
    /// their order.
    pub open spec fn fanned_out(self, subscribers: Seq<usize>, msg: ChatMessageView) -> EngineView
        decreases subscribers.len(),
    {
        if subscribers.len() == 0 {
            self
        } else {
            self.fanned_out(subscribers.drop_last(), msg).delivered(subscribers.last(), msg)
        }
    }

    /// The state after `msg` was sent to the channel at position `channel`:
    /// every subscriber that the channel has at that moment gets it.
    pub open spec fn broadcast(self, channel: int, msg: ChatMessageView) -> EngineView {
        self.fanned_out(self.channels[channel].subscribers, msg)
    }

    /// The state after the client `id` said `payload` in its channel: the
    /// channel's subscribers get the payload under the client's nick.
    pub open spec fn spoken(self, id: usize, payload: Seq<char>) -> EngineView {
        self.broadcast(
            self.clients[id as int].channel as int,
            ChatMessageView { nick: self.clients[id as int].nick, payload },
        )
    }

    /// The state after `cmd` was put on the command bus.
    pub open spec fn submitted(self, cmd: CmdMessageView) -> EngineView {
        EngineView { commands: self.commands.push(cmd), ..self }
    }

    /// The state without the oldest queued command.
    pub open spec fn popped(self) -> EngineView {
        EngineView { commands: self.commands.drop_first(), ..self }
    }
}

/// Taking a subscriber off a list without repeats leaves a list without
/// repeats, without that subscriber, and with every other one.
pub proof fn lemma_without_subscriber(channel: ChannelView, s: usize)
    requires
        channel.subscribers.no_duplicates(),
    ensures
        channel.without_subscriber(s).subscribers.no_duplicates(),
        !channel.without_subscriber(s).subscribers.contains(s),
        forall|x: usize|
            x != s ==> (#[trigger] channel.without_subscriber(s).subscribers.contains(x)
                <==> channel.subscribers.contains(x)),
        forall|j: int|
            0 <= j < channel.without_subscriber(s).subscribers.len() ==> channel.subscribers.contains(
                #[trigger] channel.without_subscriber(s).subscribers[j],
            ),
{
    let subs = channel.subscribers;
    let r = channel.without_subscriber(s).subscribers;
    lemma_first_at(subs, s);
    if subs.contains(s) {
        let i = first_at(subs, s);
        assert forall|x: usize| x != s implies (#[trigger] r.contains(x) <==> subs.contains(x)) by {
            if subs.contains(x) {
                let j = choose|j: int| 0 <= j < subs.len() && subs[j] == x;
                if j < i {
                    assert(r[j] == x);
                } else {
                    assert(r[j - 1] == x);
                }
            }
        }
    }
}

/// One more subscriber at the end of a list without repeats that does not
/// hold it leaves a list without repeats.
pub proof fn lemma_with_subscriber(channel: ChannelView, s: usize)
    requires
        channel.subscribers.no_duplicates(),
        !channel.subscribers.contains(s),
    ensures
        channel.with_subscriber(s).subscribers.no_duplicates(),
        forall|x: usize|
            #[trigger] channel.with_subscriber(s).subscribers.contains(x) <==> (x == s
                || channel.subscribers.contains(x)),
{
    let subs = channel.subscribers;
    let r = channel.with_subscriber(s).subscribers;
    assert forall|x: usize| #[trigger] r.contains(x) <==> (x == s || subs.contains(x)) by {
        if r.contains(x) {
            let j = choose|j: int| 0 <= j < r.len() && r[j] == x;
        }
        if subs.contains(x) {
            let j = choose|j: int| 0 <= j < subs.len() && subs[j] == x;
            assert(r[j] == x);
        }
        if x == s {
            assert(r[subs.len() as int] == s);
        }
    }
}

/// Starting keeps the rules.
pub proof fn lemma_started_wf(e: EngineView)
    requires
        e.wf(),
    ensures
        e.started().wf(),
        e.started().channels.len() > 0,
{
}

/// Connecting keeps the rules.
pub proof fn lemma_connected_wf(e: EngineView)
    requires
        e.wf(),
        e.channels.len() > 0,
        e.clients.len() < usize::MAX,
    ensures
        e.connected().wf(),
{
    let id = e.clients.len() as usize;
    lemma_with_subscriber(e.channels[0], id);
}

/// A new nick keeps the rules.
pub proof fn lemma_renamed_wf(e: EngineView, id: usize, nick: Seq<char>)
    requires
        e.wf(),
        e.knows(id),
    ensures
        e.renamed(id, nick).wf(),
{
}

/// Making sure that a channel exists keeps the rules, and the channel is
/// then found at a position of the registry.
pub proof fn lemma_opened_wf(e: EngineView, name: Seq<char>)
    requires
        e.wf(),
        has_name(e.channels, name) || e.channels.len() < usize::MAX,
    ensures
        e.opened(name).wf(),
        has_name(e.opened(name).channels, name),
        0 <= named_at(e.opened(name).channels, name) < e.opened(name).channels.len(),
        e.opened(name).channels[named_at(e.opened(name).channels, name)].name == name,
        has_name(e.channels, name) ==> named_at(e.opened(name).channels, name) == named_at(
            e.channels,
            name,
        ),
        !has_name(e.channels, name) ==> named_at(e.opened(name).channels, name)
            == e.channels.len(),
{
    let f = e.opened(name);
    if !has_name(e.channels, name) {
        let last = e.channels.len() as int;
        assert(f.channels[last].name == name);
        lemma_named_at(f.channels, name);
    } else {
        lemma_named_at(e.channels, name);
    }
}

/// Going over to another channel keeps the rules.
pub proof fn lemma_moved_wf(e: EngineView, id: usize, to: int)
    requires
        e.wf(),
        e.knows(id),
        0 <= to < e.channels.len(),
    ensures
        e.moved(id, to).wf(),
{
    let f = e.moved(id, to);
    let from = e.clients[id as int].channel as int;
    let left = e.channels.update(from, e.channels[from].without_subscriber(id));
    lemma_without_subscriber(e.channels[from], id);
    lemma_with_subscriber(left[to], id);
    assert forall|k: int, s: usize|
        0 <= k < f.channels.len() && s < f.clients.len() implies (
    #[trigger] f.channels[k].subscribers.contains(s) <==> f.clients[s as int].channel == k) by {
    }
    assert forall|c: int| 0 <= c < f.clients.len() implies {
        &&& (#[trigger] f.clients[c]).id == c
        &&& f.clients[c].channel < f.channels.len()
    } by {
    }
}

/// Joining a channel by name keeps the rules.
pub proof fn lemma_joined_wf(e: EngineView, id: usize, name: Seq<char>)
    requires
        e.wf(),
        e.knows(id),
        has_name(e.channels, name) || e.channels.len() < usize::MAX,
    ensures
        e.joined(id, name).wf(),
{
    lemma_opened_wf(e, name);
    let ready = e.opened(name);
    lemma_moved_wf(ready, id, named_at(ready.channels, name));
}

/// A delivery keeps the rules.
pub proof fn lemma_delivered_wf(e: EngineView, id: usize, msg: ChatMessageView)
    requires
        e.wf(),
    ensures
        e.delivered(id, msg).wf(),
        e.delivered(id, msg).channels == e.channels,
        e.delivered(id, msg).commands == e.commands,
        e.delivered(id, msg).clients.len() == e.clients.len(),
{
}

/// A fan-out keeps the rules.
pub proof fn lemma_fanned_out_wf(e: EngineView, subscribers: Seq<usize>, msg: ChatMessageView)
    requires
        e.wf(),
    ensures
        e.fanned_out(subscribers, msg).wf(),
        e.fanned_out(subscribers, msg).channels == e.channels,
        e.fanned_out(subscribers, msg).commands == e.commands,
        e.fanned_out(subscribers, msg).clients.len() == e.clients.len(),
    decreases subscribers.len(),
{
    if subscribers.len() > 0 {
        lemma_fanned_out_wf(e, subscribers.drop_last(), msg);
        lemma_delivered_wf(e.fanned_out(subscribers.drop_last(), msg), subscribers.last(), msg);
    }
}

/// One more queued command from a registered client keeps the rules.
pub proof fn lemma_submitted_wf(e: EngineView, cmd: CmdMessageView)
    requires
        e.wf(),
        e.knows(cmd.id),
    ensures
        e.submitted(cmd).wf(),
{
}

/// Taking the oldest command off the bus keeps the rules.
pub proof fn lemma_popped_wf(e: EngineView)
    requires
        e.wf(),
        e.commands.len() > 0,
    ensures
        e.popped().wf(),
        e.knows(e.commands[0].id),
{
    let f = e.popped();
    assert forall|m: int| 0 <= m < f.commands.len() implies (#[trigger] f.commands[m]).id
        < f.clients.len() by {
    }
}

} // verus!
