//! Inference of the live activity state of external coding-assistant
//! sessions, each bound to a filesystem project path.
//!
//! The state of a session is reconstructed from two racy, partial data
//! sources: small JSON status files written by lifecycle hooks, and
//! append-only transcript logs.  The modules here hold the logic of that
//! reconstruction: parsing and classifying the artifacts, the tool- and
//! state-aware staleness rules, path matching, the resolution of the two
//! sources into one consistent view, the debounce model of the change
//! watcher, and the additive-merge semantics of the hook installer.
//! Filesystem and process plumbing live outside this crate and hand the
//! functions here plain values.

pub mod strutil;
pub mod staleness;
pub mod session;
pub mod matcher;
pub mod paths;
pub mod store;
pub mod transcript;
pub mod resolver;
pub mod debounce;
pub mod hooks;
pub mod listing;
pub mod debug;
