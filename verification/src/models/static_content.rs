//! The pages of the site that its editors write.

use vstd::prelude::*;
use crate::db::{count, Criterion, find_where, first, meeting, replace_where, Row, Site, SiteView};
use crate::models::Timestamp;
use crate::util::same_text;

verus! {

/// A page, with the type of its text.
#[derive(Debug)]
pub struct Content {
    pub id: String,
    pub title: String,
    pub content: String,
    pub content_type: String,
    pub created_at: Timestamp,
    pub updated_at: Timestamp,
}

impl View for Content {
    type V = Content;

    open spec fn view(&self) -> Content {
        *self
    }
}

impl Row for Content {
    fn duplicate(&self) -> (r: Self) {
        Content {
            id: self.id.clone(),
            title: self.title.clone(),
            content: self.content.clone(),
            content_type: self.content_type.clone(),
            created_at: self.created_at,
            updated_at: self.updated_at,
        }
    }
}

/// The condition to be the page with a name.
pub struct ContentNamed<'a>(pub &'a str);

impl<'a> Criterion<Content> for ContentNamed<'a> {
    open spec fn holds(&self, v: Content) -> bool {
        v.id@ == self.0@
    }

    fn test(&self, row: &Content) -> (b: bool) {
        same_text(row.id.as_str(), self.0)
    }
}

/// Holds of the pages with the name.
pub open spec fn named(id: Seq<char>) -> spec_fn(Content) -> bool {
    |c: Content| c.id@ == id
}

/// The page with a name: the first that has it.
pub open spec fn page_named(pages: Seq<Content>, id: Seq<char>) -> Option<Content> {
    first(pages, |c: Content| c.id@ == id)
}

impl Content {
    /// A page.
    pub fn new(
        id: String,
        title: String,
        content: String,
        content_type: String,
        created_at: Timestamp,
        updated_at: Timestamp,
    ) -> (r: Self)
        ensures
            r == (Content { id, title, content, content_type, created_at, updated_at }),
    {
        Content { id, title, content, content_type, created_at, updated_at }
    }

    /// Finds a page by its name.
    pub fn find(id: &str, db: &Site) -> (r: Option<Self>)
        ensures
            r == page_named(db@.contents, id@),
    {
        proof {
            crate::db::lemma_position_same(
                db@.contents,
                meeting::<Content, ContentNamed>(ContentNamed(id)),
                |c: Content| c.id@ == id@,
            );
        }
        find_where(&db.contents, &ContentNamed(id))
    }

    /// The text of the page as it is shown: turned into HTML where it is
    /// Markdown, else as it is.
    pub fn render(&self) -> (r: String)
        ensures
            r@ == if self.content_type@ == "text/markdown"@ {
                crate::template::helper::markdown_html(self.content@)
            } else {
                self.content@
            },
    {
        if same_text(self.content_type.as_str(), "text/markdown") {
            return crate::template::helper::markdown(self.content.as_str());
        }
        self.content.clone()
    }

    /// Writes the page over the pages that have its name. The result is
    /// the number of rows written.
    pub fn save(&self, db: &mut Site) -> (r: usize)
        ensures
            final(db)@ == (SiteView { contents: final(db)@.contents, ..old(db)@ }),
            final(db)@.contents.len() == old(db)@.contents.len(),
            forall|i: int|
                0 <= i < old(db)@.contents.len() ==> #[trigger] final(db)@.contents[i]
                    == if old(db)@.contents[i].id@ == self.id@ {
                    *self
                } else {
                    old(db)@.contents[i]
                },
            r == count(old(db)@.contents, named(self.id@)),
    {
        let name = self.id.as_str();
        proof {
            crate::db::lemma_those_same(
                db@.contents,
                meeting::<Content, ContentNamed>(ContentNamed(name)),
                named(self.id@),
            );
        }
        replace_where(&mut db.contents, &ContentNamed(name), self)
    }
}

} // verus!
