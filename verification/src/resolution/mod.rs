//! Dependency-ordered resolution of symbols.

pub mod error;
pub mod cycles;
pub mod dag;
pub mod set_operations;
pub mod set_expansion;
pub mod field_resolver;
pub mod symbol_parser;
pub mod engine;
pub mod validation;
