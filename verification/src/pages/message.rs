//! The form for a private message.

use vstd::prelude::*;
use crate::models::Uuid;

verus! {

/// A message, as the form for it is filled in.
#[derive(Debug)]
pub struct NewMessage {
    pub receiver: Uuid,
    pub subject: String,
    pub body: String,
    pub reply_to: Option<Uuid>,
}

} // verus!
