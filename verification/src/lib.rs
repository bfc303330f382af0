//! A formula expression engine for a grid of typed cells.
//!
//! A textual formula is turned into tokens by the lexer, into an abstract
//! syntax tree by a precedence-climbing parser, and the tree is evaluated
//! against a two-dimensional cell store to a typed scalar result.  Floating
//! point values travel through the engine as opaque binary64 bit patterns;
//! the arithmetic on them is supplied by the embedder (see [`floatops`]).

pub mod floatops;
pub mod text;
pub mod cell;
pub mod grid;
pub mod tree;
pub mod serial;
pub mod eval;
pub mod lexer;
pub mod parser;
pub mod laws;

pub use floatops::FloatOps;
