//! Errors raised while resolving variables.

use vstd::prelude::*;
use crate::types::common::DataType;
use crate::types::runtime_operation::RuntimeOperationType;

verus! {

/// Errors raised while resolving the value of a variable.
#[derive(Debug)]
pub enum VariableResolutionError {
    /// The RUN operation that computes the variable failed.
    RunOperationFailed { variable: String, operation: RuntimeOperationType, cause: String },
    /// The JSON value of the variable could not be read.
    InvalidJsonValue { variable: String, json_content: String },
    /// A value could not be converted to the declared type.
    TypeCoercionFailed { from_type: String, to_type: DataType },
}

} // verus!
