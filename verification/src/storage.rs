//! What a listing reads from the store.

pub mod filter;
