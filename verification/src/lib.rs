//! Extracts a task-list ("checklist") section from a markdown document,
//! delimited by a start heading and an optional end heading, and verifies
//! that a required set of checklist identifiers are all marked complete.

pub mod checklist;
pub mod events;
pub mod extract;
pub mod text;
