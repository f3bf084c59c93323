//! The configuration that the site is started with.

use vstd::prelude::*;

verus! {

/// Where the database is.
#[derive(Debug)]
pub struct Database {
    pub url: String,
}

/// What a new user gets: its group, and the length of its passcode.
#[derive(Debug)]
pub struct User {
    pub default_group: crate::models::Uuid,
    pub passcode_length: usize,
}

/// Whether mail is sent.
#[derive(Debug)]
pub struct Email {
    pub enabled: bool,
}

/// What the tracker tells its clients: the announce address and the
/// comment written into the metainfo files it hands out, the number of
/// peers given where a client names none, and the seconds between two
/// announces.
#[derive(Debug)]
pub struct Tracker {
    pub announce_url: String,
    pub comment: String,
    pub default_numwant: u16,
    pub interval: u16,
}

/// All that the site is configured with.
#[derive(Debug)]
pub struct Settings {
    pub debug: bool,
    pub session_name: String,
    pub session_secret: String,
    pub session_strict: bool,
    pub domain: String,
    pub https: bool,
    pub bind: String,
    pub database: Database,
    pub user: User,
    pub email: Email,
    pub tracker: Tracker,
}

} // verus!
