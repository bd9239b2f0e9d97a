//! Download-link resolution engine.
//!
//! Given a package's updater configuration — a page to fetch and an ordered list
//! of named regular expressions — the engine resolves a candidate link list
//! (optionally drilling one level into the first filtered match), classifies the
//! links into architecture slots plus a catch-all bucket, and attaches a parsed
//! version to each match when the pattern captures one.  Fetching pages and
//! reading package definition documents are external collaborators; the engine
//! decides, the caller performs.

pub mod batch;
pub mod classify;
pub mod error;
pub mod links;
pub mod pattern;
pub mod resolve;
pub mod version;
