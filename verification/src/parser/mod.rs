//! Structural checks and dependency collection over the parsed declarations.

pub mod criterion;
pub mod filter;
pub mod set;
pub mod state;
pub mod object;
pub mod runtime_operation;
pub mod metadata;
pub mod variable;
pub mod structure;
pub mod pipeline;
