//! Requests to the pages of the site.

use vstd::prelude::*;
use crate::db::Site;
use crate::error::Error;
use crate::handlers::UserSubjectMsg;
use crate::models::static_content::{Content, page_named};

verus! {

/// Asks for a page.
#[derive(Debug)]
pub struct LoadStaticContentMsg {
    pub id: String,
}

impl LoadStaticContentMsg {
    /// A request for the page with a name.
    pub fn new(id: String) -> (r: Self)
        ensures
            r.id == id,
    {
        Self { id }
    }

    /// Loads the page, if it is there.
    pub fn handle(&self, db: &Site) -> (r: Result<Content, Error>)
        ensures
            match r {
                Ok(c) => page_named(db@.contents, self.id@) == Some(c),
                Err(e) => e == Error::NotFound && page_named(db@.contents, self.id@).is_none(),
            },
    {
        match Content::find(self.id.as_str(), db) {
            Some(c) => Ok(c),
            None => Err(Error::NotFound),
        }
    }
}

/// Changes a page.
#[derive(Debug)]
pub struct UpdateStaticContentMsg {
    pub id: String,
    pub title: String,
    pub content: String,
    pub content_type: String,
    pub subj: Option<UserSubjectMsg>,
}

impl UpdateStaticContentMsg {
    /// A request to change a page, from nobody yet.
    pub fn new(id: String, title: String, content: String, content_type: String) -> (r: Self)
        ensures
            r.id == id,
            r.title == title,
            r.content == content,
            r.content_type == content_type,
            r.subj.is_none(),
    {
        Self { id, title, content, content_type, subj: None }
    }

    /// Names the sender of the request.
    pub fn set_acl(&mut self, subj: UserSubjectMsg)
        ensures
            *final(self) == (UpdateStaticContentMsg { subj: Some(subj), ..*old(self) }),
    {
        self.subj = Some(subj);
    }
}

} // verus!
