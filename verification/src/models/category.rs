//! Torrent categories.

use vstd::prelude::*;
use crate::db::{sort_rows, sorted, Ordered};
use crate::util::bytes::{lemma_lex_total, lemma_lex_transitive};
use crate::util::{text_le, text_not_after};
use crate::db::{ById, Criterion, find_where, first, Keyed, Row, rows, select_where, Site, with_id};
use crate::models::{Timestamp, Uuid};

verus! {

/// A category that torrents are filed under.
#[derive(Debug)]
pub struct Category {
    pub id: Uuid,
    pub name: String,
    pub created_at: Timestamp,
    pub updated_at: Timestamp,
}

impl View for Category {
    type V = Category;

    open spec fn view(&self) -> Category {
        *self
    }
}

impl Row for Category {
    fn duplicate(&self) -> (r: Self) {
        Category {
            id: self.id,
            name: self.name.clone(),
            created_at: self.created_at,
            updated_at: self.updated_at,
        }
    }
}

impl Keyed for Category {
    open spec fn key(v: Category) -> Uuid {
        v.id
    }

    fn id(&self) -> (r: Uuid) {
        self.id
    }
}

impl Ordered for Category {
    /// Categories are ordered by their names.
    open spec fn le(a: Category, b: Category) -> bool {
        text_le(a.name@, b.name@)
    }

    proof fn lemma_total(a: Category, b: Category) {
        lemma_lex_total(vstd::utf8::encode_utf8(a.name@), vstd::utf8::encode_utf8(b.name@));
    }

    proof fn lemma_transitive(a: Category, b: Category, c: Category) {
        lemma_lex_transitive(
            vstd::utf8::encode_utf8(a.name@),
            vstd::utf8::encode_utf8(b.name@),
            vstd::utf8::encode_utf8(c.name@),
        );
    }

    fn not_after(&self, other: &Self) -> (r: bool) {
        text_not_after(self.name.as_str(), other.name.as_str())
    }
}

/// The condition that holds of every row.
pub struct Any;

impl<R: View> Criterion<R> for Any {
    open spec fn holds(&self, v: R::V) -> bool {
        true
    }

    fn test(&self, row: &R) -> (b: bool) {
        true
    }
}

impl Category {
    /// Finds a category by its identifier.
    pub fn find(id: &Uuid, db: &Site) -> (r: Option<Self>)
        ensures
            r == first(db@.categories, with_id::<Category>(*id)),
    {
        find_where(&db.categories, &ById(*id))
    }

    /// All categories, in the order of their names: every row of the
    /// table, as often as it stands there.
    pub fn all(db: &Site) -> (r: Vec<Self>)
        ensures
            sorted::<Category>(r@),
            r@.to_multiset() == db@.categories.to_multiset(),
    {
        let found = select_where(&db.categories, &Any);
        proof {
            crate::db::lemma_those_all(db@.categories, crate::db::meeting::<Category, Any>(Any));
        }
        let out = sort_rows(found);
        assert(rows(out@) =~= out@);
        assert(rows(found@) =~= found@);
        out
    }
}

} // verus!
