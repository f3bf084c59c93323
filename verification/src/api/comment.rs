//! Comments on torrents, as the interface sees them.

use vstd::prelude::*;
use crate::models::Uuid;

verus! {

/// A comment to write under a torrent.
#[derive(Debug)]
pub struct NewComment {
    pub torrent_id: Uuid,
    pub content: String,
}

/// A comment to change.
#[derive(Debug)]
pub struct EditComment {
    pub id: Uuid,
    pub content: String,
}

/// A comment to delete.
#[derive(Debug)]
pub struct DeleteComment {
    pub id: Uuid,
}

} // verus!
