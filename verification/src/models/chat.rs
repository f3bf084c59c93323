//! The chat: its rooms and the messages in them.

use vstd::prelude::*;
use crate::db::{Dated, first, insert_row, Keyed, Row, Site, SiteView, Tables, those};
use crate::error::Error;
use crate::models::{Timestamp, Uuid};
use crate::util::rand::fresh_id;

verus! {

/// A room of the chat. As a number, the public room is 1 and the room of
/// the team is 2.
#[derive(Debug, Clone, Copy, PartialEq, Eq, Structural)]
pub enum ChatRoom {
    /// The room of all users.
    Public,
    /// The room of the moderators.
    Team,
}

impl ChatRoom {
    /// The room with a number.
    pub open spec fn numbered(value: i16) -> Option<ChatRoom> {
        if value == 1 {
            Some(ChatRoom::Public)
        } else if value == 2 {
            Some(ChatRoom::Team)
        } else {
            None
        }
    }

    /// The number of a room.
    pub open spec fn number(self) -> i16 {
        match self {
            ChatRoom::Public => 1,
            ChatRoom::Team => 2,
        }
    }

    /// The room with a number, if there is one.
    pub fn try_from(value: i16) -> (r: Result<Self, Error>)
        ensures
            match r {
                Ok(room) => Self::numbered(value) == Some(room),
                Err(e) => e == Error::NoChatroom && Self::numbered(value).is_none(),
            },
    {
        match value {
            1 => Ok(ChatRoom::Public),
            2 => Ok(ChatRoom::Team),
            _ => Err(Error::NoChatroom),
        }
    }

    /// The number of the room.
    pub fn into(self) -> (r: i16)
        ensures
            r == self.number(),
            Self::numbered(r) == Some(self),
    {
        match self {
            ChatRoom::Public => 1,
            ChatRoom::Team => 2,
        }
    }

    /// Whether the room has the number.
    pub fn eq(&self, other: &i16) -> (r: bool)
        ensures
            r == (Self::numbered(*other) == Some(*self)),
    {
        match ChatRoom::try_from(*other) {
            Ok(room) => room == *self,
            Err(_) => false,
        }
    }

    /// The name of the room.
    pub fn to_string(&self) -> (r: String)
        ensures
            r@ == match self {
                ChatRoom::Public => "public"@,
                ChatRoom::Team => "team"@,
            },
    {
        match self {
            ChatRoom::Public => "public".to_owned(),
            ChatRoom::Team => "team".to_owned(),
        }
    }
}

/// A message in a room.
#[derive(Debug)]
pub struct ChatMessage {
    pub id: Uuid,
    pub user_id: Uuid,
    pub chat: i16,
    pub message: String,
    pub created_at: Timestamp,
}

impl View for ChatMessage {
    type V = ChatMessage;

    open spec fn view(&self) -> ChatMessage {
        *self
    }
}

impl Row for ChatMessage {
    fn duplicate(&self) -> (r: Self) {
        ChatMessage {
            id: self.id,
            user_id: self.user_id,
            chat: self.chat,
            message: self.message.clone(),
            created_at: self.created_at,
        }
    }
}

impl Keyed for ChatMessage {
    open spec fn key(v: ChatMessage) -> Uuid {
        v.id
    }

    fn id(&self) -> (r: Uuid) {
        self.id
    }
}

impl Dated for ChatMessage {
    open spec fn stamp(v: ChatMessage) -> Timestamp {
        v.created_at
    }

    fn time(&self) -> (r: Timestamp) {
        self.created_at
    }
}

/// A message in a room, with the name and the group of its writer.
#[derive(Debug)]
pub struct ChatMessageWithUser {
    pub id: Uuid,
    pub user_id: Uuid,
    pub chat: i16,
    pub message: String,
    pub created_at: Timestamp,
    pub user_name: String,
    pub user_group: Uuid,
}

impl ChatMessageWithUser {
    /// A message whose writer is not known yet: without a name, in group
    /// zero.
    pub fn from(msg: ChatMessage) -> (r: Self)
        ensures
            r.id == msg.id,
            r.user_id == msg.user_id,
            r.chat == msg.chat,
            r.message == msg.message,
            r.created_at == msg.created_at,
            r.user_name@.len() == 0,
            r.user_group == 0,
    {
        ChatMessageWithUser {
            id: msg.id,
            user_id: msg.user_id,
            chat: msg.chat,
            message: msg.message,
            created_at: msg.created_at,
            user_name: String::new(),
            user_group: 0,
        }
    }
}

/// A message that is about to be written into a room.
#[derive(Debug)]
pub struct NewChatMessage<'a> {
    pub id: Uuid,
    pub user_id: &'a Uuid,
    pub chat: &'a i16,
    pub message: &'a str,
}

impl<'a> NewChatMessage<'a> {
    /// A message, with an identifier made for it.
    pub fn new(user_id: &'a Uuid, chat: &'a i16, message: &'a str) -> (r: NewChatMessage<'a>)
        ensures
            r.user_id == user_id,
            r.chat == chat,
            r.message == message,
    {
        let id = fresh_id();
        NewChatMessage { id, user_id, chat, message }
    }

    /// Whether a row holds what this message holds, made at `now`.
    pub open spec fn is_row(self, m: ChatMessage, now: Timestamp) -> bool {
        m.id == self.id && m.user_id == *self.user_id && m.chat == *self.chat && m.message@
            == self.message@ && m.created_at == now
    }

    /// Puts the message into its table, unless a message has its
    /// identifier, and returns the row.
    pub fn save(&self, db: &mut Site, now: Timestamp) -> (r: Result<ChatMessage, Error>)
        ensures
            match r {
                Ok(m) => {
                    &&& self.is_row(m, now)
                    &&& crate::db::position(
                        old(db)@.chat_messages,
                        crate::db::with_id::<ChatMessage>(self.id),
                    ) >= old(db)@.chat_messages.len()
                    &&& final(db)@ == (SiteView {
                        chat_messages: old(db)@.chat_messages.push(m),
                        ..old(db)@
                    })
                },
                Err(e) => {
                    &&& e == Error::DuplicateKey
                    &&& crate::db::position(
                        old(db)@.chat_messages,
                        crate::db::with_id::<ChatMessage>(self.id),
                    ) < old(db)@.chat_messages.len()
                    &&& final(db)@ == old(db)@
                },
            },
    {
        let row = ChatMessage {
            id: self.id,
            user_id: *self.user_id,
            chat: *self.chat,
            message: self.message.to_owned(),
            created_at: now,
        };
        match insert_row(&mut db.chat_messages, &row) {
            Ok(_) => Ok(row),
            Err(e) => Err(e),
        }
    }
}

/// The condition to stand in a room, to be newer than a time where one is
/// given, and to have a writer that the users table knows.
pub struct InRoom<'a> {
    pub chat: i16,
    pub since: Option<Timestamp>,
    pub users: &'a Tables,
}

impl<'a> crate::db::Criterion<ChatMessage> for InRoom<'a> {
    open spec fn holds(&self, v: ChatMessage) -> bool {
        &&& v.chat == self.chat
        &&& self.since matches Some(t) ==> v.created_at > t
        &&& first(self.users@.users, crate::models::user::user_with_id(v.user_id)).is_some()
    }

    fn test(&self, row: &ChatMessage) -> (b: bool) {
        if row.chat != self.chat {
            return false;
        }
        match self.since {
            Some(t) => {
                if row.created_at <= t {
                    return false;
                }
            },
            None => {},
        }
        crate::models::user::User::find(&row.user_id, self.users).is_some()
    }
}

/// The messages of a room that are shown: those of known writers, newer
/// than `since` where it is given, the newest first, up to `limit`.
pub open spec fn room_messages(
    messages: Seq<ChatMessage>,
    users: &Tables,
    chat: i16,
    since: Option<Timestamp>,
    limit: int,
) -> Seq<ChatMessage> {
    if limit <= 0 {
        Seq::empty()
    } else {
        crate::db::in_order::<ChatMessage>(
            those(
                messages,
                crate::db::meeting::<ChatMessage, InRoom>(InRoom { chat, since, users }),
            ),
            true,
            limit as nat,
        )
    }
}

impl ChatMessageWithUser {
    /// The messages of a room, the newest first, each with the name and
    /// the group of its writer: see [`room_messages`].
    pub fn messages_for_chat(
        chat: i16,
        since: Option<Timestamp>,
        limit: i64,
        db: &Site,
        users: &Tables,
    ) -> (r: Vec<Self>)
        ensures
            r@.len() == room_messages(db@.chat_messages, users, chat, since, limit as int).len(),
            forall|i: int|
                0 <= i < r@.len() ==> {
                    let m = room_messages(db@.chat_messages, users, chat, since, limit as int)[i];
                    let u = first(users@.users, crate::models::user::user_with_id(m.user_id));
                    &&& (#[trigger] r@[i]).id == m.id
                    &&& r@[i].user_id == m.user_id
                    &&& r@[i].chat == m.chat
                    &&& r@[i].message == m.message
                    &&& r@[i].created_at == m.created_at
                    &&& u.is_some() ==> r@[i].user_name@ == u.unwrap().name && r@[i].user_group
                        == u.unwrap().group_id
                },
    {
        let mut out: Vec<ChatMessageWithUser> = Vec::new();
        if limit <= 0 {
            return out;
        }
        let found = crate::db::select_where(&db.chat_messages, &InRoom { chat, since, users });
        let cap: usize = if limit as u64 > usize::MAX as u64 {
            usize::MAX
        } else {
            limit as usize
        };
        let held = found.len();
        proof {
            if cap != limit {
                // more are asked for than a table can hold
                assert(crate::db::rows(found@).len() == held);
                lemma_limit_beyond(crate::db::rows(found@), cap as nat, limit as nat);
            }
        }
        let ordered = crate::db::order_rows(found, true, cap);
        let ghost all = ordered@;
        assert(crate::db::rows(ordered@) =~= ordered@);
        let mut i: usize = 0;
        while i < ordered.len()
            invariant
                i <= ordered.len(),
                ordered@ == all,
                out@.len() == i,
                forall|j: int|
                    0 <= j < i ==> {
                        let m = all[j];
                        let u = first(users@.users, crate::models::user::user_with_id(m.user_id));
                        &&& (#[trigger] out@[j]).id == m.id
                        &&& out@[j].user_id == m.user_id
                        &&& out@[j].chat == m.chat
                        &&& out@[j].message == m.message
                        &&& out@[j].created_at == m.created_at
                        &&& u.is_some() ==> out@[j].user_name@ == u.unwrap().name
                            && out@[j].user_group == u.unwrap().group_id
                    },
            decreases ordered.len() - i,
        {
            let mut shown = ChatMessageWithUser::from(crate::db::Row::duplicate(&ordered[i]));
            match crate::models::user::User::find(&shown.user_id, users) {
                Some(u) => {
                    shown.user_name = u.name;
                    shown.user_group = u.group_id;
                },
                None => {},
            }
            out.push(shown);
            i += 1;
        }
        out
    }
}

/// A limit beyond the number of rows is as good as any other such.
proof fn lemma_limit_beyond(table: Seq<ChatMessage>, a: nat, b: nat)
    requires
        table.len() <= a,
        table.len() <= b,
    ensures
        crate::db::in_order::<ChatMessage>(table, true, a) == crate::db::in_order::<ChatMessage>(
            table,
            true,
            b,
        ),
    decreases table.len(),
{
    if table.len() > 0 {
        let k = crate::db::leader::<ChatMessage>(table, true);
        crate::db::lemma_leader::<ChatMessage>(table, true);
        lemma_limit_beyond(table.remove(k), (a - 1) as nat, (b - 1) as nat);
    }
}

} // verus!
