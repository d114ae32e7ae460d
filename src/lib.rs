//! A small pattern-matching engine: a chain of pattern nodes, each a literal or
//! wildcard step that may repeat within bounds, matched against a whole text by a
//! checkpoint-based backtracking search.

pub mod laws;
pub mod matcher;
pub mod regex;
pub mod repeat;
pub mod string_pointer;
