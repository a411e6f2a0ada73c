//! The operations that the core rules allow on each data type. These rules
//! are fixed and cannot be changed by a definition.

use vstd::prelude::*;
use crate::types::common::{DataType, Operation};

verus! {

/// The operations that the core rules allow on values of a data type, in
/// the order in which they are listed.
pub open spec fn sdk_operations(t: DataType) -> Seq<Operation> {
    match t {
        DataType::String => seq![
            Operation::Equals,
            Operation::NotEqual,
            Operation::Contains,
            Operation::NotContains,
            Operation::StartsWith,
            Operation::EndsWith,
            Operation::PatternMatch,
        ],
        DataType::Int | DataType::Float | DataType::Version | DataType::EvrString => seq![
            Operation::Equals,
            Operation::NotEqual,
            Operation::GreaterThan,
            Operation::LessThan,
            Operation::GreaterThanOrEqual,
            Operation::LessThanOrEqual,
        ],
        DataType::Boolean | DataType::Binary | DataType::RecordData => seq![
            Operation::Equals,
            Operation::NotEqual,
        ],
    }
}

fn ordering_operations() -> (res: Vec<Operation>)
    ensures
        res@ == sdk_operations(DataType::Int),
{
    let mut v: Vec<Operation> = Vec::new();
    v.push(Operation::Equals);
    v.push(Operation::NotEqual);
    v.push(Operation::GreaterThan);
    v.push(Operation::LessThan);
    v.push(Operation::GreaterThanOrEqual);
    v.push(Operation::LessThanOrEqual);
    v
}

fn equality_operations() -> (res: Vec<Operation>)
    ensures
        res@ == sdk_operations(DataType::Boolean),
{
    let mut v: Vec<Operation> = Vec::new();
    v.push(Operation::Equals);
    v.push(Operation::NotEqual);
    v
}

impl DataType {
    /// The operations that the core rules allow on values of this type.
    pub fn sdk_valid_operations(&self) -> (res: Vec<Operation>)
        ensures
            res@ == sdk_operations(*self),
    {
        match self {
            DataType::String => {
                let mut v: Vec<Operation> = Vec::new();
                v.push(Operation::Equals);
                v.push(Operation::NotEqual);
                v.push(Operation::Contains);
                v.push(Operation::NotContains);
                v.push(Operation::StartsWith);
                v.push(Operation::EndsWith);
                v.push(Operation::PatternMatch);
                v
            },
            DataType::Int | DataType::Float | DataType::Version | DataType::EvrString => ordering_operations(),
            DataType::Boolean | DataType::Binary | DataType::RecordData => equality_operations(),
        }
    }

    /// Whether the core rules allow `operation` on values of this type.
    pub fn sdk_supports_operation(&self, operation: &Operation) -> (res: bool)
        ensures
            res == sdk_operations(*self).contains(*operation),
    {
        let ops = self.sdk_valid_operations();
        let mut i: usize = 0;
        while i < ops.len()
            invariant
                i <= ops@.len(),
                ops@ == sdk_operations(*self),
                forall|j: int| 0 <= j < i ==> ops@[j] != *operation,
            decreases ops@.len() - i,
        {
            if ops[i] == *operation {
                return true;
            }
            i = i + 1;
        }
        false
    }
}

} // verus!
