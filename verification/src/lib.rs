//! Environment discovery for a text-mode login greeter.
//!
//! The library determines which user accounts and session types are
//! selectable, renders the host identity banner, remembers the user's
//! last choices, and interprets the keyboard capability probe.  All
//! file and process I/O stays with the caller: these functions work on
//! plain values that the caller read, and their contracts say exactly
//! what is produced from them.

pub mod cache;
pub mod issue;
pub mod probe;
pub mod sessions;
pub mod text;
pub mod users;
