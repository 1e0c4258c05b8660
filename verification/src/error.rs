//! What the registries report when a caller names something they do not
//! hold.

use vstd::prelude::*;

verus! {

/// A request that the shared state could not carry out.
#[derive(Clone, Copy, Debug, PartialEq, Eq, Structural)]
pub enum ChatError {
    /// The subscriber is not on the channel's list.
    NotSubscribed,
    /// No channel stands at the position, or carries the id, that was asked
    /// for.
    UnknownChannel,
}

impl ChatError {
    /// A sentence for a log or a terminal.
    pub fn describe(&self) -> (text: String)
        ensures
            text@ == (match *self {
                ChatError::NotSubscribed => "subscriber is not on the channel"@,
                ChatError::UnknownChannel => "no such channel"@,
            }),
    {
        match self {
            ChatError::NotSubscribed => "subscriber is not on the channel".to_string(),
            ChatError::UnknownChannel => "no such channel".to_string(),
        }
    }
}

} // verus!
