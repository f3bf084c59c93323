//! What the programming interface of the site takes and gives.

use vstd::prelude::*;

pub mod chat;
pub mod comment;
pub mod identity;
pub mod message;

verus! {

/// A failure, as the interface reports it.
#[derive(Debug)]
pub struct JsonErr {
    pub error: String,
}

} // verus!
