//! ESP scanner base: parsing, dependency resolution and result generation
//! for ESP compliance definitions.

pub mod strings;
pub mod string_map;
pub mod json;
pub mod types;
pub mod resolution;
pub mod parser;
pub mod results;
pub mod strategies;
pub mod execution;
