//! Luana: the verified core of a Lua packager.
//!
//! The library holds the rules that turn a Lua project into one file: which
//! string values are import directives, how an imported file becomes a Lua
//! value, when a `_load` call pulls in another module, how statements are
//! terminated and how whitespace around tokens is minified.  The Lua syntax
//! tree itself is handled by the application, which hands this library the
//! plain values that the rules read.

pub mod import;
pub mod json;
pub mod load;
pub mod lua;
pub mod minify;
pub mod quote;
pub mod text;
pub mod token;
pub mod visitor;
