//! Core data types of ESP definitions: values, declarations, resolved
//! symbols and the resolution context.

pub mod common;
pub mod filter;
pub mod object;
pub mod set;
pub mod state;
pub mod variable;
pub mod test;
pub mod criterion;
pub mod criteria;
pub mod metadata;
pub mod runtime_operation;
pub mod resolution_context;
