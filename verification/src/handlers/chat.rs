//! Requests to the chat.

use vstd::prelude::*;
use crate::handlers::UserSubjectMsg;
use crate::models::chat::ChatRoom;
use crate::models::Timestamp;

verus! {

/// Asks for the messages of a room: those after `since` where it is
/// given, at most `limit` of them.
#[derive(Debug)]
pub struct LoadChatMessagesMsg {
    pub chat: ChatRoom,
    pub since: Option<Timestamp>,
    pub limit: i64,
    pub user: UserSubjectMsg,
}

impl LoadChatMessagesMsg {
    /// A request for the messages of a room.
    pub fn new(chat: ChatRoom, since: Option<Timestamp>, limit: i64, user: UserSubjectMsg) -> (r:
        Self)
        ensures
            r.chat == chat,
            r.since == since,
            r.limit == limit,
            r.user == user,
    {
        LoadChatMessagesMsg { chat, since, limit, user }
    }
}

/// Writes a message into a room.
#[derive(Debug)]
pub struct PublishChatMessagesMsg {
    pub chat: ChatRoom,
    pub message: String,
    pub user: UserSubjectMsg,
}

impl PublishChatMessagesMsg {
    /// A request to write a message into a room.
    pub fn new(chat: ChatRoom, message: String, user: UserSubjectMsg) -> (r: Self)
        ensures
            r.chat == chat,
            r.message == message,
            r.user == user,
    {
        Self { chat, message, user }
    }
}

} // verus!
