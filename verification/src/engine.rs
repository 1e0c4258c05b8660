//! The server engine: the two registries and the command bus, behind
//! operations that keep the rules of the shared state.

use crate::bus::MessageBus;
use crate::channel::{has_name, lemma_named_at, Channel, ChannelList};
use crate::client::{
    lemma_chat_views_drop_first, lemma_chat_views_push, lemma_client_views_update, Client,
    ClientList, ClientView,
};
use crate::error::ChatError;
use crate::message::{ChatMessage, ChatMessageView, CmdMessage, CmdMessageView};
use crate::model::{
    lemma_connected_wf, lemma_delivered_wf, lemma_fanned_out_wf, lemma_joined_wf,
    lemma_opened_wf, lemma_popped_wf, lemma_renamed_wf, lemma_started_wf, lemma_submitted_wf,
    EngineView,
};
use crate::terminal::{scrolled, wrapped, ChatView, TerminalView};
use crate::terminal_ansi::{draws_prompt, draws_terminal, formatted_terminal, update_prompt};
use crate::text::push_decimal;
use vstd::prelude::*;
use vstd::string::StringExecFns;

verus! {

/// The height of a new client's chat pane.
pub const PANE_HEIGHT: usize = 20;

/// The commands that a run of `CmdMessage` values holds.
pub open spec fn cmd_views(msgs: Seq<CmdMessage>) -> Seq<CmdMessageView> {
    Seq::new(msgs.len(), |i: int| msgs[i]@)
}

impl EngineView {
    /// The state after the terminal of the client `id` took `msg` into its
    /// chat pane.
    pub open spec fn shown(self, id: usize, msg: ChatMessageView) -> EngineView {
        let client = self.clients[id as int];
        EngineView {
            clients: self.clients.update(
                id as int,
                ClientView {
                    terminal: TerminalView {
                        chat: ChatView {
                            lines: scrolled(
                                client.terminal.chat.lines,
                                client.terminal.chat.number_of_lines as nat,
                                wrapped(msg),
                            ),
                            ..client.terminal.chat
                        },
                        ..client.terminal
                    },
                    ..client
                },
            ),
            ..self
        }
    }

    /// The state after the client `id` took the oldest message off its
    /// inbound bus.
    pub open spec fn taken(self, id: usize) -> EngineView {
        let client = self.clients[id as int];
        EngineView {
            clients: self.clients.update(
                id as int,
                ClientView { inbox: client.inbox.drop_first(), ..client },
            ),
            ..self
        }
    }
}

/// A client that changes neither its id nor its channel keeps the rules.
pub proof fn lemma_in_place_wf(e: EngineView, id: usize, client: ClientView)
    requires
        e.wf(),
        e.knows(id),
        client.id == e.clients[id as int].id,
        client.channel == e.clients[id as int].channel,
    ensures
        (EngineView { clients: e.clients.update(id as int, client), ..e }).wf(),
{
}

/// The server's shared state. It is reached only through the operations
/// below, each of which keeps the rules that `EngineView::wf` lists.
#[derive(Debug)]
pub struct ServerEngine {
    clients: ClientList,
    channels: ChannelList,
    service_bus: MessageBus<CmdMessage>,
}

impl View for ServerEngine {
    type V = EngineView;

    closed spec fn view(&self) -> EngineView {
        EngineView {
            clients: self.clients@,
            channels: self.channels@,
            commands: cmd_views(self.service_bus@),
        }
    }
}

impl ServerEngine {
    /// Whether the rules of the shared state hold.
    pub open spec fn wf(&self) -> bool {
        self@.wf()
    }

    /// An engine without clients, channels or queued commands.
    pub fn new() -> (engine: Self)
        ensures
            engine.wf(),
            engine@ == (EngineView {
                clients: Seq::empty(),
                channels: Seq::empty(),
                commands: Seq::empty(),
            }),
    {
        let engine = ServerEngine {
            clients: ClientList::new(),
            channels: ChannelList::new(),
            service_bus: MessageBus::new(),
        };
        assert(engine@.commands =~= Seq::empty());
        engine
    }

    /// The registry of clients.
    pub fn clients(&self) -> (clients: &ClientList)
        ensures
            clients@ == self@.clients,
    {
        &self.clients
    }

    /// The registry of channels.
    pub fn channels(&self) -> (channels: &ChannelList)
        ensures
            channels@ == self@.channels,
    {
        &self.channels
    }

    /// The bus of commands that wait for the dispatcher.
    pub fn service_bus(&self) -> (bus: &MessageBus<CmdMessage>)
        ensures
            cmd_views(bus@) == self@.commands,
    {
        &self.service_bus
    }

    /// Opens the default channel where the registry has no channel yet.
    pub fn start(&mut self)
        requires
            old(self).wf(),
        ensures
            final(self).wf(),
            final(self)@ == old(self)@.started(),
            final(self)@.channels.len() > 0,
    {
        proof {
            lemma_started_wf(self@);
        }
        if self.channels.len() == 0 {
            let _ = self.channels.add_channel(Channel::new(0, "broadcast".to_string()));
            assert(self@.channels =~= old(self)@.started().channels);
        }
    }

    /// Registers a client that has just connected and puts it in the
    /// default channel. Its id is the number of clients registered before
    /// it. An engine without channels refuses, and nothing changes.
    pub fn connect(&mut self) -> (r: Result<usize, ChatError>)
        requires
            old(self).wf(),
        ensures
            final(self).wf(),
            old(self)@.channels.len() > 0 ==> r == Ok::<usize, ChatError>(
                old(self)@.clients.len() as usize,
            ) && final(self)@ == old(self)@.connected(),
            old(self)@.channels.len() == 0 ==> r == Err::<usize, ChatError>(
                ChatError::UnknownChannel,
            ) && final(self)@ == old(self)@,
    {
        if self.channels.len() == 0 {
            return Err(ChatError::UnknownChannel);
        }
        let id = self.clients.len();
        let mut nick = "Anonymous-".to_string();
        push_decimal(&mut nick, id);
        let mut client = Client::new(id, nick, PANE_HEIGHT, self.channels.get_default_channel());
        client.terminal.header = "Rust Coded IcsBoyX ChatHole server".to_string();
        let _ = self.clients.register(client);
        // Counting again shows that the longer registry still fits a `usize`.
        let _ = self.clients.len();
        let ghost listed = self.clients.list@;
        assert(listed[id as int]@ == self.clients@[id as int]);
        let _ = self.clients.list[id].subscribe_to_channel(&mut self.channels);
        proof {
            lemma_client_views_update(listed, id as int, self.clients.list@[id as int]);
            assert(self@.clients =~= old(self)@.connected().clients);
            lemma_connected_wf(old(self)@);
        }
        Ok(id)
    }

    /// Gives the client `id` the nick `nick`.
    pub fn rename(&mut self, id: usize, nick: String)
        requires
            old(self).wf(),
            old(self)@.knows(id),
        ensures
            final(self).wf(),
            final(self)@ == old(self)@.renamed(id, nick@),
    {
        proof {
            lemma_renamed_wf(self@, id, nick@);
        }
        self.clients.list[id].nick = nick;
        proof {
            lemma_client_views_update(old(self).clients.list@, id as int, self.clients.list@[id as int]);
        }
    }

    /// Moves the client `id` to the channel called `name`, which is made
    /// first where no channel has that name.
    pub fn join(&mut self, id: usize, name: String)
        requires
            old(self).wf(),
            old(self)@.knows(id),
        ensures
            final(self).wf(),
            final(self)@ == old(self)@.joined(id, name@),
            final(self)@.clients.len() == old(self)@.clients.len(),
            final(self)@.channels.len() == old(self)@.channels.len() + (if has_name(
                old(self)@.channels,
                name@,
            ) {
                0int
            } else {
                1int
            }),
            final(self)@.commands == old(self)@.commands,
    {
        proof {
            lemma_named_at(self@.channels, name@);
        }
        let existing: Option<usize> = match self.channels.get_channel(name.clone()) {
            Some(channel) => Some(channel.id),
            None => None,
        };
        let to = match existing {
            Some(at) => at,
            None => {
                let at = self.channels.len();
                let _ = self.channels.add_channel(Channel::new(at, name));
                at
            },
        };
        // Counting again shows that the registry, longer or not, fits a `usize`.
        let _ = self.channels.len();
        proof {
            lemma_opened_wf(old(self)@, name@);
            lemma_joined_wf(old(self)@, id, name@);
        }
        let ghost ready = self@;
        let _ = self.clients.list[id].unsubscribe_from_channel(&mut self.channels);
        self.clients.list[id].channel = to;
        let _ = self.clients.list[id].subscribe_to_channel(&mut self.channels);
        proof {
            lemma_client_views_update(old(self).clients.list@, id as int, self.clients.list@[id as int]);
            assert(self@.clients =~= ready.moved(id, to as int).clients);
        }
    }

    /// Puts `msg` on the inbound bus of the client `id`. An id that is not
    /// registered changes nothing.
    pub fn deliver(&mut self, id: usize, msg: ChatMessage)
        requires
            old(self).wf(),
        ensures
            final(self).wf(),
            final(self)@ == old(self)@.delivered(id, msg@),
    {
        proof {
            lemma_delivered_wf(self@, id, msg@);
        }
        if id < self.clients.len() {
            proof {
                lemma_chat_views_push(self.clients.list@[id as int].rx@, msg);
            }
            let _ = self.clients.list[id].rx.push_back(msg);
            proof {
                lemma_client_views_update(
                    old(self).clients.list@,
                    id as int,
                    self.clients.list@[id as int],
                );
            }
        }
    }

    /// Sends `msg` to the channel at position `channel`: a copy goes on the
    /// bus of every subscriber that the channel has at this moment, in the
    /// order of its list.
    pub fn broadcast(&mut self, channel: usize, msg: &ChatMessage)
        requires
            old(self).wf(),
            channel < old(self)@.channels.len(),
        ensures
            final(self).wf(),
            final(self)@ == old(self)@.broadcast(channel as int, msg@),
            final(self)@.clients.len() == old(self)@.clients.len(),
            final(self)@.channels == old(self)@.channels,
            final(self)@.commands == old(self)@.commands,
    {
        proof {
            lemma_fanned_out_wf(self@, self@.channels[channel as int].subscribers, msg@);
        }
        let subscribers = self.channels.list[channel].get_all_subscribers();
        let mut i: usize = 0;
        while i < subscribers.len()
            invariant
                i <= subscribers.len(),
                subscribers@ == old(self)@.channels[channel as int].subscribers,
                self.wf(),
                self@ == old(self)@.fanned_out(subscribers@.take(i as int), msg@),
            decreases subscribers.len() - i,
        {
            self.deliver(subscribers[i], msg.clone());
            assert(subscribers@.take(i + 1).drop_last() =~= subscribers@.take(i as int));
            i += 1;
        }
        assert(subscribers@.take(i as int) =~= subscribers@);
    }

    /// The client `id` says `payload` in its channel: every subscriber of
    /// the channel, the speaker among them, gets the payload under the
    /// speaker's nick.
    pub fn speak(&mut self, id: usize, payload: String)
        requires
            old(self).wf(),
            old(self)@.knows(id),
        ensures
            final(self).wf(),
            final(self)@ == old(self)@.spoken(id, payload@),
            final(self)@.clients.len() == old(self)@.clients.len(),
            final(self)@.channels == old(self)@.channels,
            final(self)@.commands == old(self)@.commands,
    {
        let msg = ChatMessage::new(self.clients.list[id].nick.clone(), payload);
        let channel = self.clients.list[id].channel;
        assert(self@.clients[id as int].channel < self@.channels.len());
        self.broadcast(channel, &msg);
    }

    /// Puts `cmd` on the command bus.
    pub fn submit(&mut self, cmd: CmdMessage)
        requires
            old(self).wf(),
            old(self)@.knows(cmd@.id),
        ensures
            final(self).wf(),
            final(self)@ == old(self)@.submitted(cmd@),
    {
        proof {
            lemma_submitted_wf(self@, cmd@);
            assert(cmd_views(self.service_bus@.push(cmd)) =~= cmd_views(self.service_bus@).push(
                cmd@,
            ));
        }
        let _ = self.service_bus.push_back(cmd);
    }

    /// Takes the oldest command off the command bus, if there is one.
    pub fn next_command(&mut self) -> (r: Option<CmdMessage>)
        requires
            old(self).wf(),
        ensures
            final(self).wf(),
            old(self)@.commands.len() == 0 ==> r is None && final(self)@ == old(self)@,
            old(self)@.commands.len() > 0 ==> r is Some && r->0@ == old(self)@.commands[0]
                && final(self)@ == old(self)@.popped(),
    {
        proof {
            if self@.commands.len() > 0 {
                lemma_popped_wf(self@);
                assert(cmd_views(self.service_bus@.drop_first()) =~= cmd_views(
                    self.service_bus@,
                ).drop_first());
            }
        }
        self.service_bus.pop_front()
    }

    /// Takes the oldest message off the inbound bus of the client `id`, if
    /// there is one.
    pub fn take_message(&mut self, id: usize) -> (r: Option<ChatMessage>)
        requires
            old(self).wf(),
            old(self)@.knows(id),
        ensures
            final(self).wf(),
            old(self)@.clients[id as int].inbox.len() == 0 ==> r is None && final(self)@ == old(
                self,
            )@,
            old(self)@.clients[id as int].inbox.len() > 0 ==> r is Some && r->0@ == old(
                self,
            )@.clients[id as int].inbox[0] && final(self)@ == old(self)@.taken(id),
    {
        proof {
            if self@.clients[id as int].inbox.len() > 0 {
                lemma_chat_views_drop_first(self.clients.list@[id as int].rx@);
                lemma_in_place_wf(self@, id, self@.taken(id).clients[id as int]);
            }
        }
        let r = self.clients.list[id].rx.pop_front();
        proof {
            lemma_client_views_update(old(self).clients.list@, id as int, self.clients.list@[id as int]);
            if old(self)@.clients[id as int].inbox.len() == 0 {
                assert(self@.clients =~= old(self)@.clients);
            }
        }
        r
    }

    /// Scrolls `msg` into the chat pane of the client `id`.
    pub fn show(&mut self, id: usize, msg: ChatMessage)
        requires
            old(self).wf(),
            old(self)@.knows(id),
        ensures
            final(self).wf(),
            final(self)@ == old(self)@.shown(id, msg@),
    {
        proof {
            lemma_in_place_wf(self@, id, self@.shown(id, msg@).clients[id as int]);
        }
        self.clients.list[id].terminal.add_message(msg);
        proof {
            lemma_client_views_update(old(self).clients.list@, id as int, self.clients.list@[id as int]);
        }
    }

    /// Draws the terminal of the client `id`. Nothing changes.
    pub fn draw_terminal(&mut self, id: usize) -> (out: String)
        requires
            old(self)@.knows(id),
        ensures
            final(self)@ == old(self)@,
            draws_terminal(out@, old(self)@.clients[id as int].terminal),
    {
        let out = formatted_terminal(&mut self.clients.list[id].terminal);
        proof {
            assert(self.clients.list@ =~= old(self).clients.list@);
        }
        out
    }

    /// Draws the prompt of the client `id`. Nothing changes.
    pub fn draw_prompt(&mut self, id: usize) -> (out: String)
        requires
            old(self)@.knows(id),
        ensures
            final(self)@ == old(self)@,
            draws_prompt(out@, old(self)@.clients[id as int].terminal),
    {
        let out = update_prompt(&mut self.clients.list[id].terminal);
        proof {
            assert(self.clients.list@ =~= old(self).clients.list@);
        }
        out
    }
}

impl Default for ServerEngine {
    fn default() -> (engine: Self)
        ensures
            engine.wf(),
            engine@ == (EngineView {
                clients: Seq::empty(),
                channels: Seq::empty(),
                commands: Seq::empty(),
            }),
    {
        ServerEngine::new()
    }
}

} // verus!
