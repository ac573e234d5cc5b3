//! A configurable text templating library: a recursive-descent parser over
//! runtime-configurable delimiters and keywords, a directive tree, and an
//! evaluator that runs conditions and transforms through an embedded Lua
//! interpreter.

pub mod text;
pub mod config;
pub mod directive;
pub mod parser;
pub mod script;
pub mod eval;
pub mod engine;
pub mod laws;
pub mod lua_def;
pub mod cli;
