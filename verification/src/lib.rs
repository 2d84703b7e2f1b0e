//! Clipboard history: what is taken from the pasteboard, how it is hashed and
//! described, and when a new entry is recorded.

pub mod text;
pub mod hex;
pub mod hashing;
pub mod paths;
pub mod json;
pub mod content;
pub mod manager;
pub mod records;
