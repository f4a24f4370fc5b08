//! What a key press asks of the event loop.

use vstd::prelude::*;

verus! {

/// The outcome of handling a key.
#[derive(Debug, Clone, Copy, PartialEq, Eq, Structural)]
pub enum KeyAction {
    /// Nothing happened.
    Nothing,
    /// Quit the program.
    Quit,
    /// The key was consumed.
    Consumed,
    /// Send the input buffer.
    SendMessage,
    /// Cancel the current turn.
    CancelStream,
    /// Regenerate the last answer.
    RetryMessage,
    /// Edit the last user message.
    EditLastMessage,
}

} // verus!
