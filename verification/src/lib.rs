//! A BitTorrent tracker with the site around it, in memory: metainfo
//! files, announce and scrape requests over the tables of the swarm, the
//! bencoded responses, and the users, messages, torrents and access rules of
//! the site. What each function does is stated in its contract and proved.

pub mod api;
pub mod bencode;
pub mod chat;
pub mod cleanup;
pub mod db;
pub mod error;
pub mod handlers;
pub mod models;
pub mod net;
pub mod pages;
pub mod settings;
pub mod state;
pub mod template;
pub mod tracker;
pub mod util;
