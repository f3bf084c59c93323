//! Requests to the private messages.

use vstd::prelude::*;
use crate::db::{first, replaced, rows, Site, SiteView, Tables, those, with_id, without};
use crate::error::Error;
use crate::models::message::{
    folder_messages, folder_named, has_owner, Message, MessageFolder, owner_of,
};
use crate::models::{Timestamp, Uuid};
use crate::models::user::{name_of, username};

verus! {

/// A message as it is shown: with the names of its sender, its receiver
/// and its folder.
#[derive(Debug)]
pub struct MessageResponse {
    pub id: Uuid,
    pub folder_id: Uuid,
    pub sender_id: Option<Uuid>,
    pub receiver_id: Uuid,
    pub subject: String,
    pub body: String,
    pub is_read: bool,
    pub created_at: Timestamp,
    pub sender_name: String,
    pub receiver_name: String,
    pub folder_name: String,
}

/// The name shown for the sender of a message: `System` where there is no
/// sender or the sender is not known.
pub open spec fn shown_sender(users: Seq<crate::models::user::UserView>, sender_id: Option<Uuid>) -> Seq<
    char,
> {
    match sender_id {
        Some(id) => match name_of(users, id) {
            Some(name) => name,
            None => "System"@,
        },
        None => "System"@,
    }
}

impl MessageResponse {
    /// Fills in the names of the sender and the receiver. The receiver
    /// must be a user of the site.
    pub fn set_user_names(&mut self, db: &Tables)
        requires
            name_of(db@.users, old(self).receiver_id).is_some(),
        ensures
            final(self).receiver_name@ == name_of(db@.users, old(self).receiver_id).unwrap(),
            final(self).sender_name@ == shown_sender(db@.users, old(self).sender_id),
            final(self).id == old(self).id,
            final(self).folder_id == old(self).folder_id,
            final(self).sender_id == old(self).sender_id,
            final(self).receiver_id == old(self).receiver_id,
            final(self).subject == old(self).subject,
            final(self).body == old(self).body,
            final(self).is_read == old(self).is_read,
            final(self).created_at == old(self).created_at,
            final(self).folder_name == old(self).folder_name,
    {
        match username(&self.receiver_id, db) {
            Some(name) => {
                self.receiver_name = name;
            },
            None => {},
        }
        self.sender_name = match self.sender_id {
            Some(sender_id) => match username(&sender_id, db) {
                Some(name) => name,
                None => "System".to_owned(),
            },
            None => "System".to_owned(),
        };
    }

    /// A message as it is shown, without the names yet.
    pub fn from(msg: Message) -> (r: Self)
        ensures
            r.id == msg.id,
            r.folder_id == msg.folder_id,
            r.sender_id == msg.sender_id,
            r.receiver_id == msg.receiver_id,
            r.subject == msg.subject,
            r.body == msg.body,
            r.is_read == msg.is_read,
            r.created_at == msg.created_at,
            r.sender_name@.len() == 0,
            r.receiver_name@.len() == 0,
            r.folder_name@.len() == 0,
    {
        MessageResponse {
            id: msg.id,
            folder_id: msg.folder_id,
            sender_id: msg.sender_id,
            receiver_id: msg.receiver_id,
            subject: msg.subject,
            body: msg.body,
            is_read: msg.is_read,
            created_at: msg.created_at,
            sender_name: String::new(),
            receiver_name: String::new(),
            folder_name: String::new(),
        }
    }
}

/// Asks for the messages of a folder of a user.
#[derive(Debug)]
pub struct LoadMessagesMsg {
    pub folder: String,
    pub only_unread: bool,
    pub user_id: Uuid,
}

impl LoadMessagesMsg {
    /// A request for the messages of a folder.
    pub fn new(folder: String, only_unread: bool, user_id: Uuid) -> (r: Self)
        ensures
            r.folder == folder,
            r.only_unread == only_unread,
            r.user_id == user_id,
    {
        LoadMessagesMsg { folder, only_unread, user_id }
    }
}

/// Asks for one message.
#[derive(Debug)]
pub struct LoadMessageMsg {
    pub id: Uuid,
    pub user_id: Uuid,
    pub mark_as_read: bool,
}

impl LoadMessageMsg {
    /// A request for a message, which leaves it unread.
    pub fn new(id: Uuid, user_id: Uuid) -> (r: Self)
        ensures
            r.id == id,
            r.user_id == user_id,
            !r.mark_as_read,
    {
        LoadMessageMsg { id, user_id, mark_as_read: false }
    }

    /// Says whether the message is to be marked as read.
    pub fn mark_as_read(&mut self, mark: bool)
        ensures
            *final(self) == (LoadMessageMsg { mark_as_read: mark, ..*old(self) }),
    {
        self.mark_as_read = mark;
    }
}

/// Sends a message.
#[derive(Debug)]
pub struct NewMessageMsg {
    pub receiver: String,
    pub subject: String,
    pub body: String,
    pub reply_to: Option<Uuid>,
    pub user_id: Uuid,
}

impl NewMessageMsg {
    /// A request to send a message, from a user.
    pub fn new(msg: crate::api::message::NewMessage, user_id: Uuid) -> (r: Self)
        ensures
            r.receiver == msg.receiver,
            r.subject == msg.subject,
            r.body == msg.body,
            r.reply_to == msg.reply_to,
            r.user_id == user_id,
    {
        let mut r = NewMessageMsg::from(msg);
        r.user_id = user_id;
        r
    }

    /// A request to send a message, from nobody yet.
    pub fn from(msg: crate::api::message::NewMessage) -> (r: Self)
        ensures
            r.receiver == msg.receiver,
            r.subject == msg.subject,
            r.body == msg.body,
            r.reply_to == msg.reply_to,
            r.user_id == 0,
    {
        NewMessageMsg {
            receiver: msg.receiver,
            subject: msg.subject,
            body: msg.body,
            reply_to: msg.reply_to,
            user_id: 0,
        }
    }
}

/// Deletes messages of a user.
#[derive(Debug)]
pub struct DeleteMessagesMsg {
    pub messages: Vec<Uuid>,
    pub user_id: Uuid,
}

impl DeleteMessagesMsg {
    /// A request to delete messages.
    pub fn new(messages: Vec<Uuid>, user_id: Uuid) -> (r: Self)
        ensures
            r.messages == messages,
            r.user_id == user_id,
    {
        DeleteMessagesMsg { messages, user_id }
    }
}

/// Marks messages of a user as read or as unread.
#[derive(Debug)]
pub struct MarkMessagesMsg {
    pub messages: Vec<Uuid>,
    pub user_id: Uuid,
    pub mark_as_read: bool,
}

impl MarkMessagesMsg {
    /// A request to mark messages.
    pub fn new(messages: Vec<Uuid>, user_id: Uuid, mark_as_read: bool) -> (r: Self)
        ensures
            r.messages == messages,
            r.user_id == user_id,
            r.mark_as_read == mark_as_read,
    {
        MarkMessagesMsg { messages, user_id, mark_as_read }
    }
}

/// A message as it is shown, with the names that the users table and the
/// folder give.
pub open spec fn shown(m: Message, users: Seq<crate::models::user::UserView>, folder_name: Seq<char>) -> MessageShown {
    MessageShown {
        message: m,
        sender_name: shown_sender(users, m.sender_id),
        receiver_name: name_of(users, m.receiver_id).unwrap(),
        folder_name,
    }
}

/// What a shown message says: the message, and three names.
pub ghost struct MessageShown {
    pub message: Message,
    pub sender_name: Seq<char>,
    pub receiver_name: Seq<char>,
    pub folder_name: Seq<char>,
}

impl View for MessageResponse {
    type V = MessageShown;

    open spec fn view(&self) -> MessageShown {
        MessageShown {
            message: Message {
                id: self.id,
                folder_id: self.folder_id,
                sender_id: self.sender_id,
                receiver_id: self.receiver_id,
                subject: self.subject,
                body: self.body,
                is_read: self.is_read,
                created_at: self.created_at,
            },
            sender_name: self.sender_name@,
            receiver_name: self.receiver_name@,
            folder_name: self.folder_name@,
        }
    }
}

/// Whether every message has a receiver that the users table knows.
pub open spec fn receivers_known(
    messages: Seq<Message>,
    users: Seq<crate::models::user::UserView>,
) -> bool {
    forall|i: int|
        0 <= i < messages.len() ==> name_of(users, (#[trigger] messages[i]).receiver_id).is_some()
}

fn show(m: Message, folder_name: &str, db: &Tables) -> (r: Option<MessageResponse>)
    ensures
        match r {
            Some(mr) => name_of(db@.users, m.receiver_id).is_some() && mr@ == shown(
                m,
                db@.users,
                folder_name@,
            ),
            None => name_of(db@.users, m.receiver_id).is_none(),
        },
{
    if username(&m.receiver_id, db).is_none() {
        return None;
    }
    let mut mr = MessageResponse::from(m);
    mr.set_user_names(db);
    mr.folder_name = folder_name.to_owned();
    Some(mr)
}

impl LoadMessagesMsg {
    /// Loads the messages of the folder, the newest first, with the names
    /// to show; only the unread ones where asked. It fails where the user
    /// has no such folder, and where the receiver of one of these messages
    /// is no user of the site.
    pub fn handle(&self, site: &Site, db: &Tables) -> (r: Result<Vec<MessageResponse>, Error>)
        ensures
            match folder_named(site@.folders, self.folder@, self.user_id) {
                None => r == Err::<Vec<MessageResponse>, Error>(Error::NotFound),
                Some(folder) => if receivers_known(
                    folder_messages(site@.messages, folder.id, self.only_unread),
                    db@.users,
                ) {
                    r.is_ok() && rows(r.unwrap()@) == folder_messages(
                        site@.messages,
                        folder.id,
                        self.only_unread,
                    ).map_values(|m: Message| shown(m, db@.users, folder.name@))
                } else {
                    r == Err::<Vec<MessageResponse>, Error>(Error::NoUser)
                },
            },
    {
        let folder = match MessageFolder::find_by_name(self.folder.as_str(), &self.user_id, site) {
            Some(f) => f,
            None => return Err(Error::NotFound),
        };
        let messages = if self.only_unread {
            Message::fetch_unread(&folder.id, site)
        } else {
            Message::fetch_by_folder(&folder.id, site)
        };
        let ghost all = messages@;
        let ghost want = all.map_values(|m: Message| shown(m, db@.users, folder.name@));
        let mut out: Vec<MessageResponse> = Vec::new();
        let mut i: usize = 0;
        let n = messages.len();
        assert(rows(out@) =~= want.take(0));
        while i < n
            invariant
                i <= n,
                n == all.len(),
                messages@ == all,
                all == folder_messages(site@.messages, folder.id, self.only_unread),
                folder_named(site@.folders, self.folder@, self.user_id) == Some(folder),
                want == all.map_values(|m: Message| shown(m, db@.users, folder.name@)),
                forall|j: int|
                    0 <= j < i ==> name_of(db@.users, (#[trigger] all[j]).receiver_id).is_some(),
                rows(out@) == want.take(i as int),
            decreases n - i,
        {
            let ghost before = rows(out@);
            let m = crate::db::Row::duplicate(&messages[i]);
            let mr = match show(m, folder.name.as_str(), db) {
                Some(mr) => mr,
                None => {
                    assert(!receivers_known(all, db@.users));
                    return Err(Error::NoUser);
                },
            };
            let ghost item = mr@;
            out.push(mr);
            assert(rows(out@) =~= before.push(item));
            assert(want.take(i + 1) =~= want.take(i as int).push(want[i as int]));
            i += 1;
        }
        assert(want.take(n as int) =~= want);
        Ok(out)
    }
}

impl LoadMessageMsg {
    /// Loads the message for the user that owns its folder, with the names
    /// to show, and marks it as read where asked. It fails, and changes
    /// nothing, where the message or its folder is not there, where the
    /// folder belongs to another user, and where the receiver of the message
    /// is no user of the site.
    pub fn handle(&self, site: &mut Site, db: &Tables) -> (r: Result<MessageResponse, Error>)
        ensures
            match first(old(site)@.messages, with_id::<Message>(self.id)) {
                None => r == Err::<MessageResponse, Error>(Error::NotFound) && final(site)@ == old(site)@,
                Some(m) => match first(old(site)@.folders, with_id::<MessageFolder>(m.folder_id)) {
                    None => r == Err::<MessageResponse, Error>(Error::NotFound) && final(site)@
                        == old(site)@,
                    Some(folder) => if folder.user_id != self.user_id {
                        r == Err::<MessageResponse, Error>(Error::NotAllowed) && final(site)@
                            == old(site)@
                    } else if name_of(db@.users, m.receiver_id).is_none() {
                        r == Err::<MessageResponse, Error>(Error::NoUser) && final(site)@ == old(site)@
                    } else {
                        let read = Message { is_read: m.is_read || self.mark_as_read, ..m };
                        &&& r.is_ok()
                        &&& r.unwrap()@ == shown(read, db@.users, folder.name@)
                        &&& self.mark_as_read && !m.is_read ==> final(site)@ == (SiteView {
                            messages: replaced(
                                old(site)@.messages,
                                with_id::<Message>(m.id),
                                read,
                            ),
                            ..old(site)@
                        })
                        &&& !(self.mark_as_read && !m.is_read) ==> final(site)@ == old(site)@
                    },
                },
            },
    {
        let mut message = match Message::find(&self.id, site) {
            Some(m) => m,
            None => return Err(Error::NotFound),
        };
        proof {
            crate::db::lemma_position(old(site)@.messages, with_id::<Message>(self.id));
        }
        let folder = match MessageFolder::find(&message.folder_id, site) {
            Some(f) => f,
            None => return Err(Error::NotFound),
        };
        if folder.user_id != self.user_id {
            return Err(Error::NotAllowed);
        }
        if username(&message.receiver_id, db).is_none() {
            return Err(Error::NoUser);
        }
        if self.mark_as_read {
            let _ = message.mark_as_read(site);
        }
        match show(message, folder.name.as_str(), db) {
            Some(mr) => Ok(mr),
            None => Err(Error::NoUser),
        }
    }
}

/// The user that a message belongs to, as far as its folder tells: the
/// folder must be there and be one of `inbox`, `sent` and `system`, and a
/// message in `sent` must have a sender.
pub open spec fn owner_in(site: SiteView, m: Message) -> Option<Uuid> {
    match first(site.folders, with_id::<MessageFolder>(m.folder_id)) {
        Some(folder) => if has_owner(m, folder) {
            Some(owner_of(m, folder))
        } else {
            None
        },
        None => None,
    }
}

/// The message with an identifier, if it is there and belongs to the
/// user.
pub open spec fn own_message(site: SiteView, id: Uuid, user_id: Uuid) -> Option<Message> {
    match first(site.messages, with_id::<Message>(id)) {
        Some(m) => if owner_in(site, m) == Some(user_id) {
            Some(m)
        } else {
            None
        },
        None => None,
    }
}

/// The tables after the messages with the identifiers are deleted, one
/// after the other, as far as they are there and belong to the user; and
/// the identifiers of those that were deleted.
pub open spec fn deleted_for(site: SiteView, ids: Seq<Uuid>, user_id: Uuid) -> (SiteView, Seq<Uuid>)
    decreases ids.len(),
{
    if ids.len() == 0 {
        (site, Seq::empty())
    } else {
        let (s, done) = deleted_for(site, ids.drop_last(), user_id);
        match own_message(s, ids.last(), user_id) {
            Some(m) => (
                SiteView { messages: without(s.messages, with_id::<Message>(m.id)), ..s },
                done.push(m.id),
            ),
            None => (s, done),
        }
    }
}

/// The tables after the messages with the identifiers are marked as read,
/// or as unread, one after the other, as far as they are there and belong
/// to the user; and the identifiers of those that belong to the user.
pub open spec fn marked_for(site: SiteView, ids: Seq<Uuid>, user_id: Uuid, read: bool) -> (
    SiteView,
    Seq<Uuid>,
)
    decreases ids.len(),
{
    if ids.len() == 0 {
        (site, Seq::empty())
    } else {
        let (s, done) = marked_for(site, ids.drop_last(), user_id, read);
        match own_message(s, ids.last(), user_id) {
            Some(m) => (
                if m.is_read == read {
                    s
                } else {
                    SiteView {
                        messages: replaced(
                            s.messages,
                            with_id::<Message>(m.id),
                            Message { is_read: read, ..m },
                        ),
                        ..s
                    }
                },
                done.push(m.id),
            ),
            None => (s, done),
        }
    }
}

/// Finds a message that belongs to a user.
fn find_own(site: &Site, id: Uuid, user_id: Uuid) -> (r: Option<Message>)
    ensures
        r == own_message(site@, id, user_id),
{
    let message = match Message::find(&id, site) {
        Some(m) => m,
        None => return None,
    };
    let folder = match MessageFolder::find(&message.folder_id, site) {
        Some(f) => f,
        None => return None,
    };
    let known = crate::util::same_text(folder.name.as_str(), "inbox") || crate::util::same_text(
        folder.name.as_str(),
        "system",
    ) || (crate::util::same_text(folder.name.as_str(), "sent") && message.sender_id.is_some());
    if known && message.owner(&folder) == user_id {
        Some(message)
    } else {
        None
    }
}

impl DeleteMessagesMsg {
    /// Deletes the messages that are there and belong to the user, and
    /// returns their identifiers: see [`deleted_for`].
    pub fn handle(&self, site: &mut Site) -> (r: Vec<Uuid>)
        ensures
            (final(site)@, r@) == deleted_for(old(site)@, self.messages@, self.user_id),
    {
        let mut deleted: Vec<Uuid> = Vec::new();
        let mut i: usize = 0;
        assert(self.messages@.take(0) =~= Seq::empty());
        while i < self.messages.len()
            invariant
                i <= self.messages.len(),
                (site@, deleted@) == deleted_for(
                    old(site)@,
                    self.messages@.take(i as int),
                    self.user_id,
                ),
            decreases self.messages.len() - i,
        {
            proof {
                assert(self.messages@.take(i + 1).drop_last() =~= self.messages@.take(i as int));
                assert(self.messages@.take(i + 1).last() == self.messages@[i as int]);
            }
            match find_own(site, self.messages[i], self.user_id) {
                Some(message) => {
                    let _ = message.delete(site);
                    deleted.push(message.id);
                },
                None => {},
            }
            i += 1;
        }
        assert(self.messages@.take(self.messages.len() as int) =~= self.messages@);
        deleted
    }
}

impl MarkMessagesMsg {
    /// Marks the messages that are there and belong to the user, and
    /// returns their identifiers: see [`marked_for`].
    pub fn handle(&self, site: &mut Site) -> (r: Vec<Uuid>)
        ensures
            (final(site)@, r@) == marked_for(
                old(site)@,
                self.messages@,
                self.user_id,
                self.mark_as_read,
            ),
    {
        let mut marked: Vec<Uuid> = Vec::new();
        let mut i: usize = 0;
        assert(self.messages@.take(0) =~= Seq::empty());
        while i < self.messages.len()
            invariant
                i <= self.messages.len(),
                (site@, marked@) == marked_for(
                    old(site)@,
                    self.messages@.take(i as int),
                    self.user_id,
                    self.mark_as_read,
                ),
            decreases self.messages.len() - i,
        {
            proof {
                assert(self.messages@.take(i + 1).drop_last() =~= self.messages@.take(i as int));
                assert(self.messages@.take(i + 1).last() == self.messages@[i as int]);
            }
            match find_own(site, self.messages[i], self.user_id) {
                Some(mut message) => {
                    if self.mark_as_read {
                        let _ = message.mark_as_read(site);
                    } else {
                        let _ = message.mark_as_unread(site);
                    }
                    marked.push(message.id);
                },
                None => {},
            }
            i += 1;
        }
        assert(self.messages@.take(self.messages.len() as int) =~= self.messages@);
        marked
    }
}

} // verus!
