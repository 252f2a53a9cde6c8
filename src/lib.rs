//! Parsing of weighted preference headers such as `Accept-Encoding`, and
//! ranking of candidate values against them.
pub mod text;
pub mod quality;
pub mod priority_map;
pub mod parser;
pub mod matcher;
