//! Variable declarations and resolved variables.

use vstd::prelude::*;
use crate::types::common::{DataType, Value, ResolvedValue};

verus! {

/// A variable declaration. A variable without an initial value is computed
/// by a RUN operation.
#[derive(Debug)]
pub struct VariableDeclaration {
    pub name: String,
    pub data_type: DataType,
    pub initial_value: Option<Value>,
}

/// The variable that a declaration is initialised from, if its initial value
/// is a reference.
pub open spec fn init_dependency(v: VariableDeclaration) -> Option<Seq<char>> {
    match v.initial_value {
        Some(Value::Variable(n)) => Some(n@),
        _ => None,
    }
}

/// The declaration has a literal (non-reference) initial value.
pub open spec fn has_literal_init(v: VariableDeclaration) -> bool {
    match v.initial_value {
        Some(Value::Variable(_)) => false,
        Some(_) => true,
        None => false,
    }
}

impl VariableDeclaration {
    /// Whether the variable has an initial value.
    pub fn has_initial_value(&self) -> (res: bool)
        ensures
            res == self.initial_value is Some,
    {
        self.initial_value.is_some()
    }

    /// Whether the variable is computed (has no initial value).
    pub fn is_computed(&self) -> (res: bool)
        ensures
            res == self.initial_value is None,
    {
        self.initial_value.is_none()
    }

    /// Whether the initial value is a literal.
    pub fn has_literal_initial_value(&self) -> (res: bool)
        ensures
            res == has_literal_init(*self),
    {
        match &self.initial_value {
            Some(Value::Variable(_)) => false,
            Some(_) => true,
            None => false,
        }
    }

    /// The variable this one is initialised from, if any.
    pub fn get_initialization_dependency(&self) -> (res: Option<&str>)
        ensures
            match res {
                Some(n) => init_dependency(*self) == Some(n@),
                None => init_dependency(*self) is None,
            },
    {
        match &self.initial_value {
            Some(Value::Variable(n)) => Some(n.as_str()),
            _ => None,
        }
    }

    /// Whether the variable is initialised from another variable.
    pub fn has_variable_reference_initialization(&self) -> (res: bool)
        ensures
            res == init_dependency(*self) is Some,
    {
        match &self.initial_value {
            Some(Value::Variable(_)) => true,
            _ => false,
        }
    }

    /// Same as `get_initialization_dependency`.
    pub fn get_variable_reference(&self) -> (res: Option<&str>)
        ensures
            match res {
                Some(n) => init_dependency(*self) == Some(n@),
                None => init_dependency(*self) is None,
            },
    {
        self.get_initialization_dependency()
    }
}

/// A variable with its resolved value.
#[derive(Debug)]
pub struct ResolvedVariable {
    pub identifier: String,
    pub data_type: DataType,
    pub value: ResolvedValue,
}

impl Clone for ResolvedVariable {
    fn clone(&self) -> (res: Self)
        ensures
            res == *self,
    {
        ResolvedVariable {
            identifier: self.identifier.clone(),
            data_type: self.data_type,
            value: self.value.clone(),
        }
    }
}

} // verus!
