//! Retrieval engine of a snippet bookmarking tool: weighted fuzzy search over
//! the fields of a snippet and the filters that every listing goes through.

pub mod commands;
pub mod models;
pub mod search;
pub mod storage;
pub mod text;
