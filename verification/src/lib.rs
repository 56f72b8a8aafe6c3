//! Verified core of a watcher for one fediverse account.
//!
//! Two subsystems share this library and nothing else:
//!
//! - the follower check (`followers`, `snapshot`, `handle`) pages through the
//!   followers of the owner, compares them with the snapshot of the last run
//!   and says who is gone;
//! - the mirror (`mirror`, `mirror_laws`, `markup`, `upload`) publishes the new
//!   posts of a source account on a target account and keeps the watermark.
//!
//! Neither does any I/O: each says what to request and takes what came back.
//! `pattern` and `json` hold the calls into the `regex` and `serde_json`
//! crates; `text` and `endpoints` hold what both subsystems need.

pub mod endpoints;
pub mod followers;
pub mod handle;
pub mod json;
pub mod markup;
pub mod mirror;
pub mod mirror_laws;
pub mod pattern;
pub mod snapshot;
pub mod text;
pub mod upload;
