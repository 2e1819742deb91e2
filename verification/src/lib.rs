//! Live maintenance of a full-text search index over a changing collection of
//! text documents.
//!
//! Two physical slots, alpha and beta, hold one generation of the index each.
//! Queries read whichever slot is bound to the active role; a reindex cycle
//! clears the staging slot, fills it in bounded batches and then exchanges
//! the two roles. This crate holds the rules of that subsystem and proves
//! them; the storage engine, the file system and the timers are driven by
//! the caller, who performs the actions the state machines ask for and
//! reports what happened.

pub mod assets;
pub mod config;
pub mod content;
pub mod excerpt;
pub mod generation;
pub mod hits;
pub mod ident;
pub mod index;
pub mod page;
pub mod reindex;
pub mod roles;
pub mod swap;
pub mod text;
pub mod trigger;
