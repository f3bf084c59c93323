//! The chat, as the interface sees it.

use vstd::prelude::*;

verus! {

/// A message to write into a room of the chat.
#[derive(Debug)]
pub struct PublishMessage {
    /// The number of the room.
    pub chat: i16,
    /// The text of the message.
    pub message: String,
}

} // verus!
