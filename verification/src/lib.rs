//! Core language support for the "skill line" scripting dialect: an
//! offset/position model over source strings, a scanner, a recursive-descent
//! parser producing a range-addressable syntax tree, and the error model the
//! surrounding editor tooling reports diagnostics through.

pub mod documents;
pub mod error_registry;
pub mod expressions;
pub mod lexer;
pub mod parser;
pub mod positions_and_ranges;
pub mod schema;
