//! A keyword-tagged note pile: notes are tagged with the names of the rules
//! whose keywords occur in them, and the tags are kept in step with the rules.

pub mod clock;
pub mod delete;
pub mod index;
pub mod note;
pub mod rule;
pub mod search;
pub mod text;
pub mod types;
