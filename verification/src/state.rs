//! What the handlers of the site share.

use vstd::prelude::*;
use crate::db::Site;
use crate::models::acl::{loaded_parents, Acl, AclView, group_may, Permission, user_may};
use crate::models::Uuid;

verus! {

/// The rules in force, as the handlers hold them.
#[derive(Debug)]
pub struct AclContainer {
    inner: Acl,
}

impl AclContainer {
    /// The rules held.
    pub closed spec fn acl(&self) -> Acl {
        self.inner
    }

    /// Holds the given rules.
    pub fn new(acl: Acl) -> (r: Self)
        ensures
            r.acl() == acl,
    {
        Self { inner: acl }
    }

    /// Holds rules that permit nothing.
    pub fn new_empty() -> (r: Self)
        ensures
            r.acl()@ == (AclView {
                group_rules: Map::empty(),
                user_rules: Map::empty(),
                groups: Map::empty(),
            }),
    {
        Self { inner: Acl::new() }
    }

    /// Holds the given rules from now on.
    pub fn set_acl(&mut self, acl: Acl)
        ensures
            final(self).acl() == acl,
    {
        self.inner = acl;
    }

    /// Forgets the rules held, keeps the parents of groups, and loads the
    /// tables.
    pub fn reload(&mut self, db: &Site)
        ensures
            final(self).acl().group_list() == db@.group_rules,
            final(self).acl().user_list() == db@.user_rules,
            final(self).acl().parent_list() == loaded_parents(
                old(self).acl().parent_list(),
                db@.groups,
            ),
    {
        self.inner.reload(db)
    }

    /// A copy of the container.
    pub fn duplicate(&self) -> (r: Self)
        ensures
            r.acl()@ == self.acl()@,
            r.acl().depth() == self.acl().depth(),
    {
        Self { inner: self.inner.duplicate() }
    }

    /// Whether a user of a group may do `perm` in a namespace.
    pub fn is_allowed(&self, uid: &Uuid, gid: &Uuid, ns: &str, perm: &Permission) -> (r: bool)
        ensures
            r == user_may(self.acl()@, *uid, *gid, ns@, *perm, self.acl().depth()),
    {
        self.inner.is_allowed(uid, gid, ns, perm)
    }

    /// Whether a group may do `perm` in a namespace.
    pub fn is_group_allowed(&self, gid: &Uuid, ns: &str, perm: &Permission) -> (r: bool)
        ensures
            r == group_may(self.acl()@, *gid, ns@, *perm, self.acl().depth()),
    {
        self.inner.is_group_allowed(gid, ns, perm)
    }
}

} // verus!
