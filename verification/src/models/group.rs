//! User groups.

use vstd::prelude::*;
use crate::db::{ById, find_where, first, Keyed, Row, Site, with_id};
use crate::models::{Timestamp, Uuid};

verus! {

/// A group of users. A group may have a parent, whose rights it has where
/// it has none of its own.
#[derive(Debug)]
pub struct Group {
    pub id: Uuid,
    pub name: String,
    pub parent_id: Option<Uuid>,
    pub created_at: Timestamp,
    pub updated_at: Timestamp,
}

impl View for Group {
    type V = Group;

    open spec fn view(&self) -> Group {
        *self
    }
}

impl Row for Group {
    fn duplicate(&self) -> (r: Self) {
        Group {
            id: self.id,
            name: self.name.clone(),
            parent_id: self.parent_id,
            created_at: self.created_at,
            updated_at: self.updated_at,
        }
    }
}

impl Keyed for Group {
    open spec fn key(v: Group) -> Uuid {
        v.id
    }

    fn id(&self) -> (r: Uuid) {
        self.id
    }
}

impl Group {
    /// Finds a group by its identifier.
    pub fn find(id: &Uuid, db: &Site) -> (r: Option<Group>)
        ensures
            r == first(db@.groups, with_id::<Group>(*id)),
    {
        find_where(&db.groups, &ById(*id))
    }
}

} // verus!
