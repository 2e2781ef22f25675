//! Rendering of newline-delimited JSON for a terminal: each line is either
//! shown as a flat, coloured `key: value` view of its document or passed
//! through unchanged.

pub mod json;
pub mod kind;
pub mod line;
pub mod parse;
pub mod render;
pub mod sink;
pub mod strip;
pub mod text;
pub mod token;
pub mod writer;
