//! Lua type system, scope and runtime helpers.
pub mod types;
pub mod env;
pub mod errors;
pub mod height;
pub mod text;
pub mod normalize;
pub mod assign;
pub mod checker;
pub mod luatype;
pub mod laws;
pub mod time;
pub mod sync;
pub mod term;
pub mod doc;
pub mod scope;
pub mod expand;
pub mod queue;
pub mod keys;
pub mod commands;
pub mod cli;
