//! Plain-substring search and replace over text, with an optional
//! case-insensitive policy, proved against a model on sequences of chars.
//!
//! `matcher` finds the lines that hold a query, `replacer` substitutes a
//! replacement for each occurrence of it, `driver` decides per file what to
//! report and what to write, and `laws` states how these relate.

pub mod config;
pub mod driver;
pub mod laws;
pub mod matcher;
pub mod replacer;
pub mod text;
