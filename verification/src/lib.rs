//! An in-memory registry of person records.
//!
//! Incoming data passes a validation layer (bounded name, nickname and
//! technology tags, a well-formed calendar date), is assigned a fresh
//! identifier, and is stored in a registry that keeps nicknames unique.
//! The registry serves point lookup by identifier, a record count, and a
//! case-insensitive substring search over names, nicknames and tags.

pub mod dates;
pub mod validation;
pub mod registry;
pub mod search;
pub mod laws;
mod ids;
