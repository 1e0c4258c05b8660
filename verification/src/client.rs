//! Clients and their registry.

use crate::bus::MessageBus;
use crate::channel::{lemma_channel_views_update, Channel, ChannelList};
use crate::error::ChatError;
use crate::message::{ChatMessage, ChatMessageView};
use crate::terminal::{prompt_for, ChatView, Terminal, TerminalView};
use vstd::prelude::*;

verus! {

/// The messages that a run of `ChatMessage` values holds.
pub open spec fn chat_views(msgs: Seq<ChatMessage>) -> Seq<ChatMessageView> {
    Seq::new(msgs.len(), |i: int| msgs[i]@)
}

/// One more message at the end of the run is one more at the end of what it
/// holds.
pub proof fn lemma_chat_views_push(msgs: Seq<ChatMessage>, msg: ChatMessage)
    ensures
        chat_views(msgs.push(msg)) == chat_views(msgs).push(msg@),
{
}

/// Without its first message the run holds what it held, without the first.
pub proof fn lemma_chat_views_drop_first(msgs: Seq<ChatMessage>)
    requires
        msgs.len() > 0,
    ensures
        chat_views(msgs.drop_first()) == chat_views(msgs).drop_first(),
{
}

/// A connected user: who they are, what is waiting for them, which channel
/// they are in (by its position in the registry), and what their terminal
/// shows.
#[derive(Debug)]
pub struct Client {
    pub id: usize,
    pub nick: String,
    pub rx: MessageBus<ChatMessage>,
    pub terminal: Terminal,
    pub channel: usize,
}

/// A client as plain values.
pub struct ClientView {
    pub id: usize,
    pub nick: Seq<char>,
    pub inbox: Seq<ChatMessageView>,
    pub terminal: TerminalView,
    pub channel: usize,
}

impl ClientView {
    /// This client with the prompt that stands for the channel `name`.
    pub open spec fn facing(self, name: Seq<char>) -> ClientView {
        ClientView { terminal: TerminalView { prompt: prompt_for(name), ..self.terminal }, ..self }
    }

    /// This client with `msg` at the end of its inbox.
    pub open spec fn receiving(self, msg: ChatMessageView) -> ClientView {
        ClientView { inbox: self.inbox.push(msg), ..self }
    }
}

impl View for Client {
    type V = ClientView;

    open spec fn view(&self) -> ClientView {
        ClientView {
            id: self.id,
            nick: self.nick@,
            inbox: chat_views(self.rx@),
            terminal: self.terminal@,
            channel: self.channel,
        }
    }
}

impl Client {
    /// A client in `channel`, with an empty inbox and a blank terminal whose
    /// pane is `terminal_rows` high and whose prompt stands for the channel.
    /// The channel's own id is taken for its position in the registry. The
    /// client is not yet on the channel's list of subscribers.
    pub fn new(id: usize, nick: String, terminal_rows: usize, channel: &Channel) -> (client: Self)
        ensures
            client@ == (ClientView {
                id,
                nick: nick@,
                inbox: Seq::empty(),
                terminal: TerminalView {
                    start_cmd: Seq::empty(),
                    header: Seq::empty(),
                    chat: ChatView { lines: Seq::empty(), number_of_lines: terminal_rows },
                    prompt: prompt_for(channel@.name),
                    end_cmd: Seq::empty(),
                },
                channel: channel@.id,
            }),
    {
        let mut client = Client {
            id,
            nick,
            rx: MessageBus::new(),
            terminal: Terminal::new(terminal_rows),
            channel: channel.id,
        };
        client.terminal.set_prompt(channel.name.clone());
        assert(client@.inbox =~= Seq::empty());
        client
    }

    /// Puts this client on the list of its channel and sets its prompt to
    /// the one that stands for the channel. A client whose channel is not in
    /// `channels` gets an error, and nothing changes.
    pub fn subscribe_to_channel(&mut self, channels: &mut ChannelList) -> (r: Result<
        (),
        ChatError,
    >)
        ensures
            old(self)@.channel < old(channels)@.len() ==> {
                let at = old(self)@.channel as int;
                &&& r is Ok
                &&& final(channels)@ == old(channels)@.update(
                    at,
                    old(channels)@[at].with_subscriber(old(self)@.id),
                )
                &&& final(self)@ == old(self)@.facing(old(channels)@[at].name)
            },
            old(self)@.channel >= old(channels)@.len() ==> {
                &&& r == Err::<(), ChatError>(ChatError::UnknownChannel)
                &&& final(channels)@ == old(channels)@
                &&& final(self)@ == old(self)@
            },
    {
        let at = self.channel;
        if at >= channels.list.len() {
            return Err(ChatError::UnknownChannel);
        }
        let _ = channels.list[at].add_subscriber(self.id);
        proof {
            lemma_channel_views_update(old(channels).list@, at as int, channels.list@[at as int]);
        }
        let name = channels.list[at].name.clone();
        self.terminal.set_prompt(name);
        Ok(())
    }

    /// Takes this client off the list of its channel. A client whose channel
    /// is not in `channels`, or who is not on the channel's list, gets an
    /// error, and nothing changes.
    pub fn unsubscribe_from_channel(&mut self, channels: &mut ChannelList) -> (r: Result<
        (),
        ChatError,
    >)
        ensures
            final(self)@ == old(self)@,
            old(self)@.channel < old(channels)@.len() ==> {
                let at = old(self)@.channel as int;
                &&& final(channels)@ == old(channels)@.update(
                    at,
                    old(channels)@[at].without_subscriber(old(self)@.id),
                )
                &&& old(channels)@[at].subscribers.contains(old(self)@.id) ==> r is Ok
                &&& !old(channels)@[at].subscribers.contains(old(self)@.id) ==> r == Err::<
                    (),
                    ChatError,
                >(ChatError::NotSubscribed)
            },
            old(self)@.channel >= old(channels)@.len() ==> {
                &&& r == Err::<(), ChatError>(ChatError::UnknownChannel)
                &&& final(channels)@ == old(channels)@
            },
    {
        let at = self.channel;
        if at >= channels.list.len() {
            return Err(ChatError::UnknownChannel);
        }
        let r = channels.list[at].remove_subscriber(self.id);
        proof {
            lemma_channel_views_update(old(channels).list@, at as int, channels.list@[at as int]);
        }
        r
    }
}

/// The clients that a run of `Client` values holds.
pub open spec fn client_views(list: Seq<Client>) -> Seq<ClientView> {
    Seq::new(list.len(), |i: int| list[i]@)
}

/// One more client at the end of the run is one more at the end of what it
/// holds.
pub proof fn lemma_client_views_push(list: Seq<Client>, client: Client)
    ensures
        client_views(list.push(client)) == client_views(list).push(client@),
{
}

/// A client replaced in the run is replaced in what it holds.
pub proof fn lemma_client_views_update(list: Seq<Client>, i: int, client: Client)
    requires
        0 <= i < list.len(),
    ensures
        client_views(list.update(i, client)) == client_views(list).update(i, client@),
{
}

/// The registry of clients, in the order in which they connected. It only
/// grows: a client keeps its place when its connection ends.
#[derive(Debug)]
pub struct ClientList {
    pub list: Vec<Client>,
}

impl View for ClientList {
    type V = Seq<ClientView>;

    open spec fn view(&self) -> Seq<ClientView> {
        client_views(self.list@)
    }
}

impl ClientList {
    /// A registry without clients.
    pub fn new() -> (clients: Self)
        ensures
            clients@ == Seq::<ClientView>::empty(),
    {
        let clients = ClientList { list: Vec::new() };
        clients
    }

    pub fn len(&self) -> (n: usize)
        ensures
            n == self@.len(),
    {
        self.list.len()
    }

    /// The client with the id `id`, which must be one that this registry
    /// gave out.
    pub fn get_client(&self, id: usize) -> (client: &Client)
        requires
            id < self@.len(),
        ensures
            *client == self.list@[id as int],
            client@ == self@[id as int],
    {
        &self.list[id]
    }

    /// Takes `client` in at the end of the registry and gives it the next
    /// id, which is the number of clients registered before it.
    pub fn register(&mut self, client: Client) -> (id: usize)
        ensures
            id == old(self)@.len(),
            final(self)@ == old(self)@.push(ClientView { id, ..client@ }),
    {
        let id = self.list.len();
        let mut client = client;
        client.id = id;
        proof {
            lemma_client_views_push(self.list@, client);
        }
        self.list.push(client);
        id
    }
}

impl Default for ClientList {
    fn default() -> (clients: Self)
        ensures
            clients@ == Seq::<ClientView>::empty(),
    {
        ClientList::new()
    }
}

} // verus!
