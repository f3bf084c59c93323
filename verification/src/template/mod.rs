//! Rendered pages.

use vstd::prelude::*;

pub mod helper;

verus! {

/// A rendered page: its text, and the type of content that it is sent as.
#[derive(Debug)]
pub struct Template {
    pub body: String,
    pub content_type: String,
}

impl Template {
    /// A rendered page.
    pub fn new(body: String, content_type: String) -> (r: Self)
        ensures
            r.body == body,
            r.content_type == content_type,
    {
        Template { body, content_type }
    }
}

impl Default for Template {
    /// An empty page of HTML.
    fn default() -> (r: Self)
        ensures
            r.body@.len() == 0,
            r.content_type@ == "text/html;  charset=utf-8"@,
    {
        Template { body: String::new(), content_type: "text/html;  charset=utf-8".to_owned() }
    }
}

} // verus!
