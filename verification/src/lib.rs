//! Core logic of an interactive terminal chat client: the command grammar,
//! the conversation ledger, the profile/config model, and the state machines
//! that drive one chat session and the surrounding process loop.
//!
//! All I/O — the terminal, the config file on disk, the remote model API and
//! the markdown renderer — lives outside this crate; the functions here are
//! pure decisions and transformations over plain values.

pub mod chat;
pub mod commands;
pub mod config;
pub mod driver;
pub mod errors;
pub mod text;
