//! Results of executing criteria.

use vstd::prelude::*;
use crate::strategies::ComplianceStatus;

verus! {

/// The check of one field of a state against the collected data. The
/// values are kept as their debug renderings.
#[derive(Debug)]
pub struct FieldValidationResult {
    pub field_name: String,
    pub passed: bool,
    pub expected_value: String,
    pub actual_value: String,
}

/// The checks of one state against the data of one object.
#[derive(Debug)]
pub struct StateValidationResult {
    pub object_id: String,
    pub state_results: Vec<FieldValidationResult>,
    pub combined_result: bool,
}

/// What executing a criterion reported: a message and the state checks.
#[derive(Debug)]
pub struct ExecutionResult {
    pub message: String,
    pub state_results: Vec<StateValidationResult>,
}

/// The result of executing one criterion: its type, its outcome, how long
/// it took and what its execution reported.
#[derive(Debug)]
pub struct CtnResult {
    pub criterion_type: String,
    pub status: ComplianceStatus,
    pub execution_time_ms: u64,
    pub execution_result: ExecutionResult,
}

} // verus!
