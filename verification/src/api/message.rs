//! Private messages, as the interface sees them.

use vstd::prelude::*;
use crate::models::Uuid;

verus! {

/// A message to send.
#[derive(Debug)]
pub struct NewMessage {
    /// The name of the receiver.
    pub receiver: String,
    pub subject: String,
    pub body: String,
    /// The message that this one answers, if it answers one.
    pub reply_to: Option<Uuid>,
}

/// A list of messages, by their identifiers.
#[derive(Debug)]
pub struct MessageListMsg {
    pub messages: Vec<Uuid>,
}

} // verus!
