//! A small expression/scripting language: a recursive-descent parser that
//! turns a line of source text into a syntax tree, and a tree-walking
//! evaluator that runs the tree against a mutable environment of variables
//! and user-defined functions.
pub mod context;
pub mod eval;
pub mod float_bits;
pub mod laws;
pub mod node;
pub mod parser;
pub mod round_trip;
pub mod semantics;
pub mod text;
