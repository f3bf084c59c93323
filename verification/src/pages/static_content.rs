//! The form for a page of the site.

use vstd::prelude::*;
use crate::handlers::static_content::UpdateStaticContentMsg;

verus! {

/// A page, as the form for it is filled in.
#[derive(Debug)]
pub struct ContentForm {
    pub id: String,
    pub title: String,
    pub content: String,
    pub content_type: String,
}

impl ContentForm {
    /// The request to change the page as the form says.
    pub fn into(self) -> (r: UpdateStaticContentMsg)
        ensures
            r.id == self.id,
            r.title == self.title,
            r.content == self.content,
            r.content_type == self.content_type,
            r.subj.is_none(),
    {
        UpdateStaticContentMsg::new(self.id, self.title, self.content, self.content_type)
    }
}

} // verus!
