//! A wikitext parser's token cursor and parse state, verified with Verus.

pub mod data;
pub mod token;
pub mod tree;
pub mod warning;
pub mod parser;
pub mod laws;
