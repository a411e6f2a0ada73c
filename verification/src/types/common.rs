//! Data types, operations and values shared by all declarations.

use vstd::prelude::*;
use crate::strings::str_eq;

verus! {

/// Data types of ESP values.
#[derive(Debug, Clone, Copy, PartialEq, Eq, Structural)]
pub enum DataType {
    String,
    Int,
    Float,
    Boolean,
    Binary,
    RecordData,
    Version,
    EvrString,
}

/// The spelling of each data type in ESP definitions.
pub open spec fn data_type_name(t: DataType) -> Seq<char> {
    match t {
        DataType::String => "String"@,
        DataType::Int => "Int"@,
        DataType::Float => "Float"@,
        DataType::Boolean => "Boolean"@,
        DataType::Binary => "Binary"@,
        DataType::RecordData => "RecordData"@,
        DataType::Version => "Version"@,
        DataType::EvrString => "EvrString"@,
    }
}

impl DataType {
    /// Parse a data type from its spelling.
    pub fn from_str(s: &str) -> (res: Option<DataType>)
        ensures
            match res {
                Some(t) => data_type_name(t) == s@,
                None => forall|t: DataType| data_type_name(t) != s@,
            },
    {
        if str_eq(s, "String") {
            Some(DataType::String)
        } else if str_eq(s, "Int") {
            Some(DataType::Int)
        } else if str_eq(s, "Float") {
            Some(DataType::Float)
        } else if str_eq(s, "Boolean") {
            Some(DataType::Boolean)
        } else if str_eq(s, "Binary") {
            Some(DataType::Binary)
        } else if str_eq(s, "RecordData") {
            Some(DataType::RecordData)
        } else if str_eq(s, "Version") {
            Some(DataType::Version)
        } else if str_eq(s, "EvrString") {
            Some(DataType::EvrString)
        } else {
            proof {
                assert forall|t: DataType| data_type_name(t) != s@ by {
                    match t {
                        DataType::String => {},
                        DataType::Int => {},
                        DataType::Float => {},
                        DataType::Boolean => {},
                        DataType::Binary => {},
                        DataType::RecordData => {},
                        DataType::Version => {},
                        DataType::EvrString => {},
                    }
                }
            }
            None
        }
    }

    /// The spelling of this data type.
    pub fn as_str(&self) -> (res: &'static str)
        ensures
            res@ == data_type_name(*self),
    {
        match self {
            DataType::String => "String",
            DataType::Int => "Int",
            DataType::Float => "Float",
            DataType::Boolean => "Boolean",
            DataType::Binary => "Binary",
            DataType::RecordData => "RecordData",
            DataType::Version => "Version",
            DataType::EvrString => "EvrString",
        }
    }
}

/// Comparison operations of state fields.
#[derive(Debug, Clone, Copy, PartialEq, Eq, Structural)]
pub enum Operation {
    Equals,
    NotEqual,
    GreaterThan,
    LessThan,
    GreaterThanOrEqual,
    LessThanOrEqual,
    Contains,
    NotContains,
    StartsWith,
    EndsWith,
    PatternMatch,
}

/// Logical operators joining criteria.
#[derive(Debug, Clone, Copy, PartialEq, Eq, Structural)]
pub enum LogicalOp {
    And,
    Or,
}

impl LogicalOp {
    /// Parse `AND` or `OR`.
    pub fn from_str(s: &str) -> (res: Option<LogicalOp>)
        ensures
            res == (if s@ == "AND"@ {
                Some(LogicalOp::And)
            } else if s@ == "OR"@ {
                Some(LogicalOp::Or)
            } else {
                None::<LogicalOp>
            }),
    {
        if str_eq(s, "AND") {
            Some(LogicalOp::And)
        } else if str_eq(s, "OR") {
            Some(LogicalOp::Or)
        } else {
            None
        }
    }
}

/// A value as written in a declaration: a literal or a variable reference.
/// A float is carried by its IEEE-754 bit pattern.
#[derive(Debug)]
pub enum Value {
    String(String),
    Integer(i64),
    Float(u64),
    Boolean(bool),
    Variable(String),
}

impl Clone for Value {
    fn clone(&self) -> (res: Self)
        ensures
            res == *self,
    {
        match self {
            Value::String(s) => Value::String(s.clone()),
            Value::Integer(i) => Value::Integer(*i),
            Value::Float(f) => Value::Float(*f),
            Value::Boolean(b) => Value::Boolean(*b),
            Value::Variable(v) => Value::Variable(v.clone()),
        }
    }
}

/// The variable that a value refers to, if it is a variable reference.
pub open spec fn spec_variable_name(v: Value) -> Option<Seq<char>> {
    match v {
        Value::Variable(n) => Some(n@),
        _ => None,
    }
}

impl Value {
    /// The name of the referenced variable, if this value is a reference.
    pub fn get_variable_name(&self) -> (res: Option<&String>)
        ensures
            match res {
                Some(n) => spec_variable_name(*self) == Some(n@),
                None => spec_variable_name(*self) is None,
            },
    {
        match self {
            Value::Variable(n) => Some(n),
            _ => None,
        }
    }
}

/// A value after variable references have been replaced by their values.
#[derive(Debug)]
pub enum ResolvedValue {
    String(String),
    Integer(i64),
    Float(u64),
    Boolean(bool),
}

impl Clone for ResolvedValue {
    fn clone(&self) -> (res: Self)
        ensures
            res == *self,
    {
        match self {
            ResolvedValue::String(s) => ResolvedValue::String(s.clone()),
            ResolvedValue::Integer(i) => ResolvedValue::Integer(*i),
            ResolvedValue::Float(f) => ResolvedValue::Float(*f),
            ResolvedValue::Boolean(b) => ResolvedValue::Boolean(*b),
        }
    }
}

/// Key/value pairs of a Parameter or Select element.
#[derive(Debug)]
pub struct RecordData {
    pub fields: Vec<(String, String)>,
}

impl RecordData {
    /// Record data holding the given pairs in order.
    pub fn from_field_pairs(pairs: &Vec<(String, String)>) -> (res: RecordData)
        ensures
            res.fields@ == pairs@,
    {
        let mut fields: Vec<(String, String)> = Vec::new();
        let mut i: usize = 0;
        while i < pairs.len()
            invariant
                i <= pairs@.len(),
                fields@ == pairs@.subrange(0, i as int),
            decreases pairs@.len() - i,
        {
            let k = pairs[i].0.clone();
            let v = pairs[i].1.clone();
            fields.push((k, v));
            proof {
                assert(fields@ =~= pairs@.subrange(0, i + 1));
            }
            i = i + 1;
        }
        RecordData { fields }
    }
}

impl Clone for RecordData {
    fn clone(&self) -> (res: Self)
        ensures
            res.fields@ == self.fields@,
    {
        RecordData::from_field_pairs(&self.fields)
    }
}

/// The name of each DataType variant, as `Debug` prints it.
pub open spec fn data_type_debug(t: DataType) -> Seq<char> {
    match t {
        DataType::String => "String"@,
        DataType::Int => "Int"@,
        DataType::Float => "Float"@,
        DataType::Boolean => "Boolean"@,
        DataType::Binary => "Binary"@,
        DataType::RecordData => "RecordData"@,
        DataType::Version => "Version"@,
        DataType::EvrString => "EvrString"@,
    }
}

/// A data type is spelled in definitions as `Debug` prints its variant, so
/// parsing the printed name of a data type gives that data type back.
pub proof fn lemma_data_type_spelling(t: DataType)
    ensures
        data_type_name(t) == data_type_debug(t),
{
}

impl DataType {
    /// The name of the variant, as `Debug` prints it.
    pub fn debug_name(&self) -> (res: &'static str)
        ensures
            res@ == data_type_debug(*self),
    {
        match self {
            DataType::String => "String",
            DataType::Int => "Int",
            DataType::Float => "Float",
            DataType::Boolean => "Boolean",
            DataType::Binary => "Binary",
            DataType::RecordData => "RecordData",
            DataType::Version => "Version",
            DataType::EvrString => "EvrString",
        }
    }
}

/// The operation spelled `s` (its variant name), if any.
pub open spec fn operation_of(s: Seq<char>) -> Option<Operation> {
    if s == "Equals"@ {
        Some(Operation::Equals)
    } else if s == "NotEqual"@ {
        Some(Operation::NotEqual)
    } else if s == "GreaterThan"@ {
        Some(Operation::GreaterThan)
    } else if s == "LessThan"@ {
        Some(Operation::LessThan)
    } else if s == "GreaterThanOrEqual"@ {
        Some(Operation::GreaterThanOrEqual)
    } else if s == "LessThanOrEqual"@ {
        Some(Operation::LessThanOrEqual)
    } else if s == "Contains"@ {
        Some(Operation::Contains)
    } else if s == "NotContains"@ {
        Some(Operation::NotContains)
    } else if s == "StartsWith"@ {
        Some(Operation::StartsWith)
    } else if s == "EndsWith"@ {
        Some(Operation::EndsWith)
    } else if s == "PatternMatch"@ {
        Some(Operation::PatternMatch)
    } else {
        None
    }
}

impl Operation {
    /// Parse an operation from its variant name.
    pub fn from_str(s: &str) -> (res: Option<Operation>)
        ensures
            res == operation_of(s@),
            match res {
                Some(o) => operation_debug(o) == s@,
                None => forall|o: Operation| operation_debug(o) != s@,
            },
    {
        if str_eq(s, "Equals") {
            Some(Operation::Equals)
        } else if str_eq(s, "NotEqual") {
            Some(Operation::NotEqual)
        } else if str_eq(s, "GreaterThan") {
            Some(Operation::GreaterThan)
        } else if str_eq(s, "LessThan") {
            Some(Operation::LessThan)
        } else if str_eq(s, "GreaterThanOrEqual") {
            Some(Operation::GreaterThanOrEqual)
        } else if str_eq(s, "LessThanOrEqual") {
            Some(Operation::LessThanOrEqual)
        } else if str_eq(s, "Contains") {
            Some(Operation::Contains)
        } else if str_eq(s, "NotContains") {
            Some(Operation::NotContains)
        } else if str_eq(s, "StartsWith") {
            Some(Operation::StartsWith)
        } else if str_eq(s, "EndsWith") {
            Some(Operation::EndsWith)
        } else if str_eq(s, "PatternMatch") {
            Some(Operation::PatternMatch)
        } else {
            proof {
                assert forall|o: Operation| operation_debug(o) != s@ by {
                    match o {
                        Operation::Equals => {},
                        Operation::NotEqual => {},
                        Operation::GreaterThan => {},
                        Operation::LessThan => {},
                        Operation::GreaterThanOrEqual => {},
                        Operation::LessThanOrEqual => {},
                        Operation::Contains => {},
                        Operation::NotContains => {},
                        Operation::StartsWith => {},
                        Operation::EndsWith => {},
                        Operation::PatternMatch => {},
                    }
                }
            }
            None
        }
    }
}

/// The name of each Operation variant, as `Debug` prints it.
pub open spec fn operation_debug(t: Operation) -> Seq<char> {
    match t {
        Operation::Equals => "Equals"@,
        Operation::NotEqual => "NotEqual"@,
        Operation::GreaterThan => "GreaterThan"@,
        Operation::LessThan => "LessThan"@,
        Operation::GreaterThanOrEqual => "GreaterThanOrEqual"@,
        Operation::LessThanOrEqual => "LessThanOrEqual"@,
        Operation::Contains => "Contains"@,
        Operation::NotContains => "NotContains"@,
        Operation::StartsWith => "StartsWith"@,
        Operation::EndsWith => "EndsWith"@,
        Operation::PatternMatch => "PatternMatch"@,
    }
}

/// Parsing an operation name gives the operation that `Debug` prints under
/// that name, and only a name that `Debug` prints parses: `"GreaterThan"`
/// gives `GreaterThan`, `"LessThan"` gives `LessThan`, and so on for every
/// operation.
pub proof fn lemma_operation_name_round_trip(o: Operation)
    ensures
        operation_of(operation_debug(o)) == Some(o),
        forall|s: Seq<char>| #[trigger] operation_of(s) == Some(o) ==> s == operation_debug(o),
{
    reveal_strlit("Equals");
    reveal_strlit("NotEqual");
    reveal_strlit("GreaterThan");
    reveal_strlit("LessThan");
    reveal_strlit("GreaterThanOrEqual");
    reveal_strlit("LessThanOrEqual");
    reveal_strlit("Contains");
    reveal_strlit("NotContains");
    reveal_strlit("StartsWith");
    reveal_strlit("EndsWith");
    reveal_strlit("PatternMatch");
    assert("Equals"@.len() == 6 && "Equals"@[0] == 'E' && "Equals"@[5] == 's');
    assert("NotEqual"@.len() == 8 && "NotEqual"@[0] == 'N' && "NotEqual"@[7] == 'l');
    assert("GreaterThan"@.len() == 11 && "GreaterThan"@[0] == 'G' && "GreaterThan"@[10] == 'n');
    assert("LessThan"@.len() == 8 && "LessThan"@[0] == 'L' && "LessThan"@[7] == 'n');
    assert("GreaterThanOrEqual"@.len() == 18 && "GreaterThanOrEqual"@[0] == 'G' && "GreaterThanOrEqual"@[17] == 'l');
    assert("LessThanOrEqual"@.len() == 15 && "LessThanOrEqual"@[0] == 'L' && "LessThanOrEqual"@[14] == 'l');
    assert("Contains"@.len() == 8 && "Contains"@[0] == 'C' && "Contains"@[7] == 's');
    assert("NotContains"@.len() == 11 && "NotContains"@[0] == 'N' && "NotContains"@[10] == 's');
    assert("StartsWith"@.len() == 10 && "StartsWith"@[0] == 'S' && "StartsWith"@[9] == 'h');
    assert("EndsWith"@.len() == 8 && "EndsWith"@[0] == 'E' && "EndsWith"@[7] == 'h');
    assert("PatternMatch"@.len() == 12 && "PatternMatch"@[0] == 'P' && "PatternMatch"@[11] == 'h');
}

impl Operation {
    /// The name of the variant, as `Debug` prints it.
    pub fn debug_name(&self) -> (res: &'static str)
        ensures
            res@ == operation_debug(*self),
    {
        match self {
            Operation::Equals => "Equals",
            Operation::NotEqual => "NotEqual",
            Operation::GreaterThan => "GreaterThan",
            Operation::LessThan => "LessThan",
            Operation::GreaterThanOrEqual => "GreaterThanOrEqual",
            Operation::LessThanOrEqual => "LessThanOrEqual",
            Operation::Contains => "Contains",
            Operation::NotContains => "NotContains",
            Operation::StartsWith => "StartsWith",
            Operation::EndsWith => "EndsWith",
            Operation::PatternMatch => "PatternMatch",
        }
    }
}

} // verus!
