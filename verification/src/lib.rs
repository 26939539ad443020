//! Relay of a live text stream to a chat: segmentation of the input,
//! the pending queue with its coalescing rule, the decisions of the
//! rate-limited sender, the overwrite-last-line protocol, the pairing
//! code and the table of named connections.

pub mod config;
pub mod error;
pub mod message;
pub mod pairing;
pub mod processor;
pub mod queue;
pub mod sender;
pub mod text;
