//! Converts a timeline of level events, written as JSON, into the text of a
//! Lua function, and holds the rules of two small terminal games.

pub mod text;
pub mod tables;
pub mod json;
pub mod timeline;
pub mod call;
pub mod emit;
pub mod lines;
pub mod chance;
pub mod duck;
pub mod simon;
