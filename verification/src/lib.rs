//! A small ahead-of-time compiler for a C-like language with integers and
//! pointers: a lexer turns source text into tokens, a recursive-descent
//! parser builds a typed syntax tree, and a code generator lowers the tree
//! to textual assembly for a register machine using a stack discipline.
pub mod lexer;
pub mod codegen;
pub mod eval;
pub mod parser;
