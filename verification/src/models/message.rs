//! Private messages and the folders they lie in.

use vstd::prelude::*;
use crate::db::{
    ById, Criterion, Dated, find_where, first, in_order, insert_row, Keyed, meeting, order_rows,
    position, replace_where, replaced, Row, select_where, Site, SiteView, those, with_id,
    without,
};
use crate::error::Error;
use crate::models::{Timestamp, Uuid};
use crate::util::rand::fresh_id;
use crate::util::same_text;

verus! {

/// A folder of messages of one user.
#[derive(Debug)]
pub struct MessageFolder {
    pub id: Uuid,
    pub user_id: Uuid,
    pub name: String,
    pub purge: i16,
}

impl View for MessageFolder {
    type V = MessageFolder;

    open spec fn view(&self) -> MessageFolder {
        *self
    }
}

impl Row for MessageFolder {
    fn duplicate(&self) -> (r: Self) {
        MessageFolder {
            id: self.id,
            user_id: self.user_id,
            name: self.name.clone(),
            purge: self.purge,
        }
    }
}

impl Keyed for MessageFolder {
    open spec fn key(v: MessageFolder) -> Uuid {
        v.id
    }

    fn id(&self) -> (r: Uuid) {
        self.id
    }
}

/// The condition to be the folder of a user with a name.
pub struct FolderNamed<'a> {
    pub name: &'a str,
    pub user_id: Uuid,
}

impl<'a> Criterion<MessageFolder> for FolderNamed<'a> {
    open spec fn holds(&self, v: MessageFolder) -> bool {
        v.name@ == self.name@ && v.user_id == self.user_id
    }

    fn test(&self, row: &MessageFolder) -> (b: bool) {
        row.user_id == self.user_id && same_text(row.name.as_str(), self.name)
    }
}

/// The folder of a user with a name: the first such.
pub open spec fn folder_named(folders: Seq<MessageFolder>, name: Seq<char>, user_id: Uuid) -> Option<
    MessageFolder,
> {
    first(folders, |f: MessageFolder| f.name@ == name && f.user_id == user_id)
}

impl MessageFolder {
    /// Finds a folder by its identifier.
    pub fn find(id: &Uuid, db: &Site) -> (r: Option<Self>)
        ensures
            r == first(db@.folders, with_id::<MessageFolder>(*id)),
    {
        find_where(&db.folders, &ById(*id))
    }

    /// Finds the folder of a user by its name.
    pub fn find_by_name(name: &str, user_id: &Uuid, db: &Site) -> (r: Option<Self>)
        ensures
            r == folder_named(db@.folders, name@, *user_id),
    {
        proof {
            crate::db::lemma_position_same(
                db@.folders,
                meeting::<MessageFolder, FolderNamed>(FolderNamed { name, user_id: *user_id }),
                |f: MessageFolder| f.name@ == name@ && f.user_id == *user_id,
            );
        }
        find_where(&db.folders, &FolderNamed { name, user_id: *user_id })
    }
}

/// A folder that is about to be made.
#[derive(Debug)]
pub struct NewMessageFolder<'a> {
    pub id: Uuid,
    pub user_id: &'a Uuid,
    pub name: &'a str,
    pub purge: i16,
}

impl<'a> NewMessageFolder<'a> {
    /// A folder for a user, with an identifier made for it.
    pub fn new(user_id: &'a Uuid, name: &'a str, purge: i16) -> (r: Self)
        ensures
            r.user_id == user_id,
            r.name == name,
            r.purge == purge,
    {
        NewMessageFolder { id: fresh_id(), user_id, name, purge }
    }

    /// Whether a row holds what this folder holds.
    pub open spec fn is_row(self, f: MessageFolder) -> bool {
        f.id == self.id && f.user_id == *self.user_id && f.name@ == self.name@ && f.purge
            == self.purge
    }

    /// Puts the folder into its table, unless a folder has its identifier.
    /// The result is the number of rows written.
    pub fn save(&self, db: &mut Site) -> (r: Result<usize, Error>)
        ensures
            match r {
                Ok(n) => n == 1 && position(old(db)@.folders, with_id::<MessageFolder>(self.id))
                    >= old(db)@.folders.len() && final(db)@.folders.len() == old(db)@.folders.len()
                    + 1 && final(db)@.folders.drop_last() == old(db)@.folders && self.is_row(
                    final(db)@.folders.last(),
                ) && final(db)@ == (SiteView { folders: final(db)@.folders, ..old(db)@ }),
                Err(e) => e == Error::DuplicateKey && position(
                    old(db)@.folders,
                    with_id::<MessageFolder>(self.id),
                ) < old(db)@.folders.len() && final(db)@ == old(db)@,
            },
    {
        let row = MessageFolder {
            id: self.id,
            user_id: *self.user_id,
            name: self.name.to_owned(),
            purge: self.purge,
        };
        let r = insert_row(&mut db.folders, &row);
        proof {
            if r.is_ok() {
                assert(db@.folders.drop_last() =~= old(db)@.folders);
            }
        }
        r
    }
}

/// A message in a folder.
#[derive(Debug)]
pub struct Message {
    pub id: Uuid,
    pub folder_id: Uuid,
    pub sender_id: Option<Uuid>,
    pub receiver_id: Uuid,
    pub subject: String,
    pub body: String,
    pub is_read: bool,
    pub created_at: Timestamp,
}

impl View for Message {
    type V = Message;

    open spec fn view(&self) -> Message {
        *self
    }
}

impl Row for Message {
    fn duplicate(&self) -> (r: Self) {
        Message {
            id: self.id,
            folder_id: self.folder_id,
            sender_id: self.sender_id,
            receiver_id: self.receiver_id,
            subject: self.subject.clone(),
            body: self.body.clone(),
            is_read: self.is_read,
            created_at: self.created_at,
        }
    }
}

impl Keyed for Message {
    open spec fn key(v: Message) -> Uuid {
        v.id
    }

    fn id(&self) -> (r: Uuid) {
        self.id
    }
}

impl Dated for Message {
    open spec fn stamp(v: Message) -> Timestamp {
        v.created_at
    }

    fn time(&self) -> (r: Timestamp) {
        self.created_at
    }
}

/// The condition to lie in a folder and, where asked, to be unread.
pub struct InFolder {
    pub folder_id: Uuid,
    pub only_unread: bool,
}

impl Criterion<Message> for InFolder {
    open spec fn holds(&self, v: Message) -> bool {
        v.folder_id == self.folder_id && (self.only_unread ==> !v.is_read)
    }

    fn test(&self, row: &Message) -> (b: bool) {
        row.folder_id == self.folder_id && (!self.only_unread || !row.is_read)
    }
}

/// The messages of a folder, the newest first; only the unread ones where
/// asked.
pub open spec fn folder_messages(messages: Seq<Message>, folder_id: Uuid, only_unread: bool) -> Seq<
    Message,
> {
    let found = those(messages, meeting::<Message, InFolder>(InFolder { folder_id, only_unread }));
    in_order::<Message>(found, true, found.len())
}

/// Whether the owner of a message in a folder is known: the folder is one
/// of `inbox`, `sent` and `system`, and a message in `sent` has a sender.
pub open spec fn has_owner(m: Message, folder: MessageFolder) -> bool {
    folder.name@ == "inbox"@ || folder.name@ == "system"@ || (folder.name@ == "sent"@
        && m.sender_id.is_some())
}

/// The user that a message in a folder belongs to: the sender of a
/// message in `sent`, else the receiver.
pub open spec fn owner_of(m: Message, folder: MessageFolder) -> Uuid {
    if folder.name@ == "inbox"@ || folder.name@ == "system"@ {
        m.receiver_id
    } else {
        m.sender_id.unwrap()
    }
}

impl Message {
    /// Finds a message by its identifier.
    pub fn find(id: &Uuid, db: &Site) -> (r: Option<Self>)
        ensures
            r == first(db@.messages, with_id::<Message>(*id)),
    {
        find_where(&db.messages, &ById(*id))
    }

    /// The messages of a folder, the newest first.
    pub fn fetch_by_folder(folder_id: &Uuid, db: &Site) -> (r: Vec<Self>)
        ensures
            r@ == folder_messages(db@.messages, *folder_id, false),
    {
        let found = select_where(&db.messages, &InFolder { folder_id: *folder_id, only_unread: false });
        let n = found.len();
        let out = order_rows(found, true, n);
        assert(crate::db::rows(out@) =~= out@);
        out
    }

    /// The unread messages of a folder, the newest first.
    pub fn fetch_unread(folder_id: &Uuid, db: &Site) -> (r: Vec<Self>)
        ensures
            r@ == folder_messages(db@.messages, *folder_id, true),
    {
        let found = select_where(&db.messages, &InFolder { folder_id: *folder_id, only_unread: true });
        let n = found.len();
        let out = order_rows(found, true, n);
        assert(crate::db::rows(out@) =~= out@);
        out
    }

    /// Puts a copy of the message, with an identifier made for it, into
    /// another folder, and returns the copy.
    pub fn copy_to_folder(&self, sent_folder_id: &Uuid, db: &mut Site) -> (r: Result<Message, Error>)
        ensures
            match r {
                Ok(m) => {
                    &&& m == (Message { id: m.id, folder_id: *sent_folder_id, ..*self })
                    &&& position(old(db)@.messages, with_id::<Message>(m.id)) >= old(
                        db
                    )@.messages.len()
                    &&& final(db)@ == (SiteView {
                        messages: old(db)@.messages.push(m),
                        ..old(db)@
                    })
                },
                Err(e) => e == Error::DuplicateKey && final(db)@ == old(db)@,
            },
    {
        let mut copy = self.duplicate();
        copy.id = fresh_id();
        copy.folder_id = *sent_folder_id;
        match insert_row(&mut db.messages, &copy) {
            Ok(_) => Ok(copy),
            Err(e) => Err(e),
        }
    }

    /// Deletes the message. The result is the number of rows deleted.
    pub fn delete(&self, db: &mut Site) -> (r: usize)
        ensures
            final(db)@ == (SiteView {
                messages: without(old(db)@.messages, with_id::<Message>(self.id)),
                ..old(db)@
            }),
            r == old(db)@.messages.len() - final(db)@.messages.len(),
    {
        crate::db::delete_where(&mut db.messages, &ById(self.id))
    }

    /// The user that the message belongs to, given the folder it lies in.
    pub fn owner(&self, folder: &MessageFolder) -> (r: Uuid)
        requires
            has_owner(*self, *folder),
        ensures
            r == owner_of(*self, *folder),
    {
        if same_text(folder.name.as_str(), "inbox") || same_text(folder.name.as_str(), "system") {
            self.receiver_id
        } else {
            match self.sender_id {
                Some(id) => id,
                None => self.receiver_id,
            }
        }
    }

    /// Marks the message as read, here and in its table. The result is the
    /// number of rows written: none where it was read already.
    pub fn mark_as_read(&mut self, db: &mut Site) -> (r: usize)
        ensures
            *final(self) == (Message { is_read: true, ..*old(self) }),
            old(self).is_read ==> r == 0 && final(db)@ == old(db)@,
            !old(self).is_read ==> final(db)@ == (SiteView {
                messages: replaced(
                    old(db)@.messages,
                    with_id::<Message>(old(self).id),
                    *final(self),
                ),
                ..old(db)@
            }),
    {
        if self.is_read {
            return 0;
        }
        self.is_read = true;
        replace_where(&mut db.messages, &ById(self.id), self)
    }

    /// Marks the message as unread, here and in its table. The result is
    /// the number of rows written: none where it was unread already.
    pub fn mark_as_unread(&mut self, db: &mut Site) -> (r: usize)
        ensures
            *final(self) == (Message { is_read: false, ..*old(self) }),
            !old(self).is_read ==> r == 0 && final(db)@ == old(db)@,
            old(self).is_read ==> final(db)@ == (SiteView {
                messages: replaced(
                    old(db)@.messages,
                    with_id::<Message>(old(self).id),
                    *final(self),
                ),
                ..old(db)@
            }),
    {
        if !self.is_read {
            return 0;
        }
        self.is_read = false;
        replace_where(&mut db.messages, &ById(self.id), self)
    }
}

/// A message that is about to be sent.
#[derive(Debug)]
pub struct NewMessage<'a> {
    pub id: Uuid,
    pub folder_id: &'a Uuid,
    pub sender_id: Option<&'a Uuid>,
    pub receiver_id: &'a Uuid,
    pub subject: &'a str,
    pub body: &'a str,
}

impl<'a> NewMessage<'a> {
    /// A message from a sender, with an identifier made for it.
    pub fn new(
        folder_id: &'a Uuid,
        sender_id: &'a Uuid,
        receiver_id: &'a Uuid,
        subject: &'a str,
        body: &'a str,
    ) -> (r: Self)
        ensures
            r.folder_id == folder_id,
            r.sender_id == Some(sender_id),
            r.receiver_id == receiver_id,
            r.subject == subject,
            r.body == body,
    {
        NewMessage {
            id: fresh_id(),
            folder_id,
            sender_id: Some(sender_id),
            receiver_id,
            subject,
            body,
        }
    }

    /// Whether a row holds what this message holds, unread and made at
    /// `now`.
    pub open spec fn is_row(self, m: Message, now: Timestamp) -> bool {
        &&& m.id == self.id
        &&& m.folder_id == *self.folder_id
        &&& m.sender_id == match self.sender_id {
            Some(s) => Some(*s),
            None => None,
        }
        &&& m.receiver_id == *self.receiver_id
        &&& m.subject@ == self.subject@
        &&& m.body@ == self.body@
        &&& !m.is_read
        &&& m.created_at == now
    }

    /// Puts the message into its table, unless a message has its
    /// identifier, and returns the row.
    pub fn save(&self, db: &mut Site, now: Timestamp) -> (r: Result<Message, Error>)
        ensures
            match r {
                Ok(m) => {
                    &&& self.is_row(m, now)
                    &&& position(old(db)@.messages, with_id::<Message>(self.id)) >= old(
                        db
                    )@.messages.len()
                    &&& final(db)@ == (SiteView {
                        messages: old(db)@.messages.push(m),
                        ..old(db)@
                    })
                },
                Err(e) => {
                    &&& e == Error::DuplicateKey
                    &&& position(old(db)@.messages, with_id::<Message>(self.id)) < old(
                        db
                    )@.messages.len()
                    &&& final(db)@ == old(db)@
                },
            },
    {
        let row = Message {
            id: self.id,
            folder_id: *self.folder_id,
            sender_id: match self.sender_id {
                Some(s) => Some(*s),
                None => None,
            },
            receiver_id: *self.receiver_id,
            subject: self.subject.to_owned(),
            body: self.body.to_owned(),
            is_read: false,
            created_at: now,
        };
        match insert_row(&mut db.messages, &row) {
            Ok(_) => Ok(row),
            Err(e) => Err(e),
        }
    }
}

} // verus!
