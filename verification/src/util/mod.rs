//! Plain-text utilities.
pub mod string;
