//! Primitives of a parser-combinator library: streams of items, positions in
//! them, the consumed/empty flag that every parse result carries, and parse
//! errors that merge at the furthest position reached.
pub mod algebra;
pub mod consumed;
pub mod error;
pub mod info;
pub mod order;
pub mod parser;
pub mod position;
pub mod positioner;
pub mod render;
pub mod state;
pub mod stream;
