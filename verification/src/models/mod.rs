//! The data model: the rows of each table as plain values, and the tables
//! themselves, held in memory.

use vstd::prelude::*;

pub mod acl;
pub mod category;
pub mod chat;
pub mod group;
pub mod message;
pub mod peer;
pub mod static_content;
pub mod torrent;
pub mod user;

verus! {

/// The identifier of a row.
pub type Uuid = u128;

/// A point in time, in seconds since the epoch.
pub type Timestamp = i64;

/// A byte string.
pub type Bytes = Vec<u8>;

} // verus!
