//! Memory of a conversation: which turns are kept, and in which order they
//! are handed back.

pub mod lru;

use vstd::prelude::*;

verus! {

/// Why a conversation history could not be updated or read.
#[derive(Clone, Debug, PartialEq, Eq)]
pub enum ConversationHistoryError {
    InternalError(String),
}

impl ConversationHistoryError {
    pub open spec fn message(&self) -> Seq<char> {
        match self {
            ConversationHistoryError::InternalError(message) => message@,
        }
    }

    /// The message that the error holds.
    pub fn to_string(&self) -> (text: String)
        ensures
            text@ == self.message(),
    {
        match self {
            ConversationHistoryError::InternalError(message) => message.clone(),
        }
    }
}

/// A store of the turns of a conversation.
pub trait ConversationHistory {
    /// Records one more turn.
    fn add_turn(&mut self, memory_policy: String, turn: String) -> Result<
        (),
        ConversationHistoryError,
    >;

    /// The recorded turns that bear on `query`, the most relevant first.
    fn retrieve_history(&mut self, memory_policy: String, query: String) -> Result<
        Vec<String>,
        ConversationHistoryError,
    >;
}

} // verus!
