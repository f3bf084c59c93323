//! The chat, as it goes over the wire.

pub mod codec;
