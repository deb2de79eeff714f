//! The logic of a conversation co-pilot: judge first, then write.
//!
//! A conversation goes to the judge, which answers seven questions on it in one request. With
//! that verdict a chat model drafts replies, and the judge ranks them. A screenshot or a pasted
//! transcript can be turned into a conversation first. Nothing is ever sent for the user.
//!
//! The library holds no keys. Every request upstream is paid for by the key that the caller
//! sends along with it.
//!
//! What talks to the network and the disk stands outside. It hands in what came back, and is
//! told what to do next.
pub mod completion;
pub mod config;
pub mod draft;
pub mod exchange;
pub mod json;
pub mod judge;
pub mod probe;
pub mod questions;
pub mod recognition;
pub mod search;
pub mod server;
pub mod text;
pub mod value;
