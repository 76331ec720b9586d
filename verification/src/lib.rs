//! A counter program and its build tooling's core logic.
//!
//! Two parts:
//! - `publisher`: the build step that locates an interface-description
//!   artifact among several candidate locations and plans its publication
//!   into the release output directories, falling back to a sentinel
//!   placeholder when nothing valid is found.
//! - `counter`: the counter service itself, with explicitly owned state,
//!   saturating arithmetic, an owner-gated reset, and an event log.

pub mod counter;
pub mod publisher;
