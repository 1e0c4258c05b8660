//! The two kinds of message that travel on a bus.

use vstd::prelude::*;

verus! {

/// One line of chat: who said it and what was said.
#[derive(Debug)]
pub struct ChatMessage {
    pub nick: String,
    pub payload: String,
}

/// A chat message as plain text.
pub struct ChatMessageView {
    pub nick: Seq<char>,
    pub payload: Seq<char>,
}

impl View for ChatMessage {
    type V = ChatMessageView;

    open spec fn view(&self) -> ChatMessageView {
        ChatMessageView { nick: self.nick@, payload: self.payload@ }
    }
}

impl ChatMessage {
    pub fn new(nick: String, msg: String) -> (m: Self)
        ensures
            m.nick == nick,
            m.payload == msg,
            m@ == (ChatMessageView { nick: nick@, payload: msg@ }),
    {
        ChatMessage { nick, payload: msg }
    }
}

impl Clone for ChatMessage {
    fn clone(&self) -> (m: Self)
        ensures
            m@ == self@,
    {
        ChatMessage { nick: self.nick.clone(), payload: self.payload.clone() }
    }
}

/// A command line as a client typed it, leading `/` included, with the id of
/// the client that sent it.
#[derive(Debug)]
pub struct CmdMessage {
    pub id: usize,
    pub payload: String,
}

/// A command message as plain text.
pub struct CmdMessageView {
    pub id: usize,
    pub payload: Seq<char>,
}

impl View for CmdMessage {
    type V = CmdMessageView;

    open spec fn view(&self) -> CmdMessageView {
        CmdMessageView { id: self.id, payload: self.payload@ }
    }
}

impl CmdMessage {
    pub fn new(id: usize, msg: String) -> (m: Self)
        ensures
            m.id == id,
            m.payload == msg,
            m@ == (CmdMessageView { id, payload: msg@ }),
    {
        CmdMessage { id, payload: msg }
    }
}

impl Clone for CmdMessage {
    fn clone(&self) -> (m: Self)
        ensures
            m@ == self@,
    {
        CmdMessage { id: self.id, payload: self.payload.clone() }
    }
}

} // verus!
