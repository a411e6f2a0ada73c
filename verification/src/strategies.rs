//! Outcomes of evaluating a criterion.

use vstd::prelude::*;

verus! {

/// The outcome of evaluating one criterion.
#[derive(Debug, Clone, Copy, PartialEq, Eq, Structural)]
pub enum ComplianceStatus {
    Pass,
    Fail,
    Error,
    Unknown,
}

} // verus!
