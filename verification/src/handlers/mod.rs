//! The requests that the site hands to its tables, and what they do there.

use vstd::prelude::*;
use crate::models::acl::UserSubject;
use crate::models::Uuid;
use crate::state::AclContainer;

pub mod chat;
pub mod message;
pub mod settings;
pub mod static_content;
pub mod torrent;
pub mod update;
pub mod upload;
pub mod user;

verus! {

/// Who sends a request: a user, its group, and the rules in force.
#[derive(Debug)]
pub struct UserSubjectMsg {
    pub uid: Uuid,
    pub gid: Uuid,
    pub acl: AclContainer,
}

impl UserSubjectMsg {
    /// The sender of a request.
    pub fn new(uid: Uuid, gid: Uuid, acl: AclContainer) -> (r: Self)
        ensures
            r.uid == uid,
            r.gid == gid,
            r.acl == acl,
    {
        Self { uid, gid, acl }
    }

    /// The subject that the sender is.
    pub fn subject<'a>(&'a self) -> (r: UserSubject<'a>)
        ensures
            *r.user_id == self.uid,
            *r.group_id == self.gid,
            r.acl.acl()@ == self.acl.acl()@,
            r.acl.acl().depth() == self.acl.acl().depth(),
    {
        UserSubject::new(&self.uid, &self.gid, self.acl.duplicate())
    }
}

} // verus!
