//! What the commands of the tool decide once the store is read.

pub mod list;
pub mod search;
