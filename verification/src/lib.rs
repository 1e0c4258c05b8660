//! A multi-user chat server's engine: the registries of clients and
//! channels, the message buses between them, the dispatcher that carries out
//! slash commands, and the session logic that turns what a connection yields
//! into chat and commands.
//!
//! The engine owns all shared state. Whoever runs it (one thread per
//! connection and one for the dispatcher, say) holds it behind one lock and
//! calls in for each event; the functions here never block, sleep or touch
//! a socket.

pub mod bus;
pub mod channel;
pub mod client;
pub mod command;
pub mod dispatcher;
pub mod engine;
pub mod error;
pub mod laws;
pub mod message;
pub mod model;
pub mod paint;
pub mod session;
pub mod terminal;
pub mod terminal_ansi;
pub mod text;

pub use crate::bus::MessageBus;
pub use crate::channel::{Channel, ChannelList};
pub use crate::client::{Client, ClientList};
pub use crate::command::{execute, parse_command, resolve_verb, verb_named, Reply, Request, Verb};
pub use crate::dispatcher::{dispatch, handle_service_bus};
pub use crate::engine::{ServerEngine, PANE_HEIGHT};
pub use crate::error::ChatError;
pub use crate::message::{ChatMessage, CmdMessage};
pub use crate::session::{
    classify_line, frame, is_ctrl_c, read_line, trim_line, Input, LineKind, Session,
    SessionState, COMMAND_DELAY_MS, POLL_INTERVAL_MS,
};
pub use crate::terminal::{prompt_from, Chat, Terminal, WRAP_WIDTH};
pub use crate::terminal_ansi::{
    compose_pane, compose_prompt, compose_welcome, formatted_terminal, init_terminal,
    restore_terminal, update_prompt, AnsiControlCodes,
};
