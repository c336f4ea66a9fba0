//! A verified engine for a file-stash tool: entries are moved out of the
//! working tree into a managed store and later restored.  The crate holds the
//! decision logic — context inference, the entry lifecycle manager, the
//! metadata index and the operation journal — with contracts; the thin
//! filesystem shell around it executes the action plans this library emits.

pub mod clock;
pub mod compression;
pub mod config;
pub mod display;
pub mod entry;
pub mod errors;
pub mod hashing;
pub mod ids;
pub mod index_storage;
pub mod inference;
pub mod item;
pub mod journal_storage;
pub mod laws;
pub mod manager;
pub mod operation;
pub mod paths;
pub mod permissions;
pub mod search;
pub mod stash;
pub mod text;
