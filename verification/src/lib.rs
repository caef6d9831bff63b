//! A syntax-tree rewriting pass over generated dispatch enums: every field
//! type that goes through the declaration's bound context parameter is
//! replaced by a deduplicated, freshly introduced generic parameter.

pub mod ast;
pub mod config;
pub mod expand;
pub mod laws;
pub mod model;
pub mod names;
pub mod rules;
pub mod text;
