//! RUN operations: computed variables.

use vstd::prelude::*;
use crate::strings::{str_eq, concat3};
use crate::types::common::{Value, spec_variable_name};

verus! {

/// The kind of a RUN operation.
#[derive(Debug, Clone, Copy, PartialEq, Eq, Structural)]
pub enum RuntimeOperationType {
    Concat,
    Split,
    Substring,
    RegexCapture,
    Arithmetic,
    Count,
    Unique,
    End,
    Merge,
    Extract,
}

/// The spelling of each RUN operation kind.
pub open spec fn runtime_operation_name(t: RuntimeOperationType) -> Seq<char> {
    match t {
        RuntimeOperationType::Concat => "CONCAT"@,
        RuntimeOperationType::Split => "SPLIT"@,
        RuntimeOperationType::Substring => "SUBSTRING"@,
        RuntimeOperationType::RegexCapture => "REGEX_CAPTURE"@,
        RuntimeOperationType::Arithmetic => "ARITHMETIC"@,
        RuntimeOperationType::Count => "COUNT"@,
        RuntimeOperationType::Unique => "UNIQUE"@,
        RuntimeOperationType::End => "END"@,
        RuntimeOperationType::Merge => "MERGE"@,
        RuntimeOperationType::Extract => "EXTRACT"@,
    }
}

impl RuntimeOperationType {
    /// The spelling of this kind.
    pub fn as_str(&self) -> (res: &'static str)
        ensures
            res@ == runtime_operation_name(*self),
    {
        match self {
            RuntimeOperationType::Concat => "CONCAT",
            RuntimeOperationType::Split => "SPLIT",
            RuntimeOperationType::Substring => "SUBSTRING",
            RuntimeOperationType::RegexCapture => "REGEX_CAPTURE",
            RuntimeOperationType::Arithmetic => "ARITHMETIC",
            RuntimeOperationType::Count => "COUNT",
            RuntimeOperationType::Unique => "UNIQUE",
            RuntimeOperationType::End => "END",
            RuntimeOperationType::Merge => "MERGE",
            RuntimeOperationType::Extract => "EXTRACT",
        }
    }

    /// Parse a RUN operation kind from its spelling.
    pub fn from_str(s: &str) -> (res: Option<RuntimeOperationType>)
        ensures
            match res {
                Some(t) => runtime_operation_name(t) == s@,
                None => forall|t: RuntimeOperationType| runtime_operation_name(t) != s@,
            },
    {
        if str_eq(s, "CONCAT") {
            Some(RuntimeOperationType::Concat)
        } else if str_eq(s, "SPLIT") {
            Some(RuntimeOperationType::Split)
        } else if str_eq(s, "SUBSTRING") {
            Some(RuntimeOperationType::Substring)
        } else if str_eq(s, "REGEX_CAPTURE") {
            Some(RuntimeOperationType::RegexCapture)
        } else if str_eq(s, "ARITHMETIC") {
            Some(RuntimeOperationType::Arithmetic)
        } else if str_eq(s, "COUNT") {
            Some(RuntimeOperationType::Count)
        } else if str_eq(s, "UNIQUE") {
            Some(RuntimeOperationType::Unique)
        } else if str_eq(s, "END") {
            Some(RuntimeOperationType::End)
        } else if str_eq(s, "MERGE") {
            Some(RuntimeOperationType::Merge)
        } else if str_eq(s, "EXTRACT") {
            Some(RuntimeOperationType::Extract)
        } else {
            proof {
                assert forall|t: RuntimeOperationType| runtime_operation_name(t) != s@ by {
                    match t {
                        RuntimeOperationType::Concat => {},
                        RuntimeOperationType::Split => {},
                        RuntimeOperationType::Substring => {},
                        RuntimeOperationType::RegexCapture => {},
                        RuntimeOperationType::Arithmetic => {},
                        RuntimeOperationType::Count => {},
                        RuntimeOperationType::Unique => {},
                        RuntimeOperationType::End => {},
                        RuntimeOperationType::Merge => {},
                        RuntimeOperationType::Extract => {},
                    }
                }
            }
            None
        }
    }
}

/// Arithmetic operators of ARITHMETIC operations.
#[derive(Debug, Clone, Copy, PartialEq, Eq, Structural)]
pub enum ArithmeticOperator {
    Add,
    Subtract,
    Multiply,
    Divide,
    Modulo,
}

/// The arithmetic operator spelled `s`, if any.
pub open spec fn arithmetic_operator_of(s: Seq<char>) -> Option<ArithmeticOperator> {
    if s == "+"@ {
        Some(ArithmeticOperator::Add)
    } else if s == "-"@ {
        Some(ArithmeticOperator::Subtract)
    } else if s == "*"@ {
        Some(ArithmeticOperator::Multiply)
    } else if s == "/"@ {
        Some(ArithmeticOperator::Divide)
    } else if s == "%"@ {
        Some(ArithmeticOperator::Modulo)
    } else {
        None
    }
}

/// The symbol that denotes each arithmetic operator.
pub open spec fn arithmetic_symbol(op: ArithmeticOperator) -> Seq<char> {
    match op {
        ArithmeticOperator::Add => "+"@,
        ArithmeticOperator::Subtract => "-"@,
        ArithmeticOperator::Multiply => "*"@,
        ArithmeticOperator::Divide => "/"@,
        ArithmeticOperator::Modulo => "%"@,
    }
}

/// Parsing an arithmetic symbol gives the operator it denotes (`+` addition,
/// `-` subtraction, `*` multiplication, `/` division, `%` remainder), and
/// only those symbols parse.
pub proof fn lemma_arithmetic_symbol_round_trip(op: ArithmeticOperator)
    ensures
        arithmetic_operator_of(arithmetic_symbol(op)) == Some(op),
        forall|s: Seq<char>| #[trigger] arithmetic_operator_of(s) == Some(op) ==> s == arithmetic_symbol(op),
{
    reveal_strlit("+");
    reveal_strlit("-");
    reveal_strlit("*");
    reveal_strlit("/");
    reveal_strlit("%");
    assert("+"@[0] == '+' && "-"@[0] == '-' && "*"@[0] == '*' && "/"@[0] == '/' && "%"@[0] == '%');
}

impl ArithmeticOperator {
    /// Parse an arithmetic operator: `+`, `-`, `*`, `/` or `%`.
    pub fn from_str(s: &str) -> (res: Option<ArithmeticOperator>)
        ensures
            res == arithmetic_operator_of(s@),
            match res {
                Some(op) => arithmetic_symbol(op) == s@,
                None => forall|op: ArithmeticOperator| arithmetic_symbol(op) != s@,
            },
    {
        if str_eq(s, "+") {
            Some(ArithmeticOperator::Add)
        } else if str_eq(s, "-") {
            Some(ArithmeticOperator::Subtract)
        } else if str_eq(s, "*") {
            Some(ArithmeticOperator::Multiply)
        } else if str_eq(s, "/") {
            Some(ArithmeticOperator::Divide)
        } else if str_eq(s, "%") {
            Some(ArithmeticOperator::Modulo)
        } else {
            proof {
                assert forall|op: ArithmeticOperator| arithmetic_symbol(op) != s@ by {
                    match op {
                        ArithmeticOperator::Add => {},
                        ArithmeticOperator::Subtract => {},
                        ArithmeticOperator::Multiply => {},
                        ArithmeticOperator::Divide => {},
                        ArithmeticOperator::Modulo => {},
                    }
                }
            }
            None
        }
    }
}

/// Every kind of RUN operation but `END` needs parameters.
pub open spec fn spec_requires_parameters(t: RuntimeOperationType) -> bool {
    t != RuntimeOperationType::End
}

impl RuntimeOperationType {
    /// Whether operations of this kind need parameters.
    pub fn requires_parameters(&self) -> (res: bool)
        ensures
            res == spec_requires_parameters(*self),
    {
        match self {
            RuntimeOperationType::End => false,
            _ => true,
        }
    }
}

/// A parameter of a RUN operation.
#[derive(Debug)]
pub enum RunParameter {
    Variable(String),
    Literal(Value),
    Pattern(String),
    Delimiter(String),
    Character(String),
    StartPosition(i64),
    Length(i64),
    ObjectExtraction { object_id: String, field: String },
    ArithmeticOp { operator: ArithmeticOperator, operand: Value },
}

/// When a RUN operation can be evaluated.
#[derive(Debug, Clone, Copy, PartialEq, Eq, Structural)]
pub enum OperationCategory {
    ResolutionTime,
    ScanTime,
}

/// The variables a parameter refers to.
pub open spec fn param_var_refs(p: RunParameter) -> Seq<Seq<char>> {
    match p {
        RunParameter::Variable(n) => seq![n@],
        RunParameter::Literal(v) => match spec_variable_name(v) {
            Some(n) => seq![n],
            None => Seq::empty(),
        },
        RunParameter::ArithmeticOp { operand, .. } => match spec_variable_name(operand) {
            Some(n) => seq![n],
            None => Seq::empty(),
        },
        _ => Seq::empty(),
    }
}

/// The variables referred to by a list of parameters, in order.
pub open spec fn params_var_refs(s: Seq<RunParameter>) -> Seq<Seq<char>>
    decreases s.len(),
{
    if s.len() == 0 {
        Seq::empty()
    } else {
        params_var_refs(s.drop_last()) + param_var_refs(s.last())
    }
}

/// The objects extracted from by a list of parameters, in order.
pub open spec fn params_object_refs(s: Seq<RunParameter>) -> Seq<Seq<char>>
    decreases s.len(),
{
    if s.len() == 0 {
        Seq::empty()
    } else {
        params_object_refs(s.drop_last()) + match s.last() {
            RunParameter::ObjectExtraction { object_id, .. } => seq![object_id@],
            _ => Seq::empty(),
        }
    }
}

/// Whether a parameter list holds a parameter of the kind that `pick` selects.
pub open spec fn has_param(s: Seq<RunParameter>, pick: spec_fn(RunParameter) -> bool) -> bool {
    exists|i: int| 0 <= i < s.len() && pick(#[trigger] s[i])
}

/// The parameter required by each operation kind is present (kinds without
/// a requirement always pass).
pub open spec fn params_ok(t: RuntimeOperationType, s: Seq<RunParameter>) -> bool {
    match t {
        RuntimeOperationType::Split => has_param(s, |p: RunParameter| p is Delimiter),
        RuntimeOperationType::Substring => has_param(s, |p: RunParameter| p is StartPosition)
            && has_param(s, |p: RunParameter| p is Length),
        RuntimeOperationType::RegexCapture => has_param(s, |p: RunParameter| p is Pattern),
        RuntimeOperationType::Extract => has_param(s, |p: RunParameter| p is ObjectExtraction),
        RuntimeOperationType::Arithmetic => has_param(s, |p: RunParameter| p is ArithmeticOp),
        _ => true,
    }
}

/// The message reporting a missing required parameter.
pub open spec fn params_message(t: RuntimeOperationType, target: Seq<char>) -> Seq<char> {
    match t {
        RuntimeOperationType::Split => "SPLIT operation '"@ + target + "' requires a delimiter parameter"@,
        RuntimeOperationType::Substring => "SUBSTRING operation '"@ + target + "' requires start and length parameters"@,
        RuntimeOperationType::RegexCapture => "REGEX_CAPTURE operation '"@ + target + "' requires a pattern parameter"@,
        RuntimeOperationType::Extract => "EXTRACT operation '"@ + target + "' requires an object extraction parameter"@,
        _ => "ARITHMETIC operation '"@ + target + "' requires arithmetic operator parameters"@,
    }
}

/// A parameter of each kind (0 Delimiter, 1 StartPosition, 2 Length, 3 Pattern,
/// 4 ObjectExtraction, 5 ArithmeticOp) occurs in `params`.
fn has_param_kind(params: &Vec<RunParameter>, kind: u8) -> (res: bool)
    requires
        kind < 6,
    ensures
        res == (exists|i: int| 0 <= i < params@.len() && #[trigger] param_kind_is(params@[i], kind)),
{
    let mut i: usize = 0;
    while i < params.len()
        invariant
            i <= params@.len(),
            forall|j: int| 0 <= j < i ==> !#[trigger] param_kind_is(params@[j], kind),
        decreases params@.len() - i,
    {
        let hit = match &params[i] {
            RunParameter::Delimiter(_) => kind == 0,
            RunParameter::StartPosition(_) => kind == 1,
            RunParameter::Length(_) => kind == 2,
            RunParameter::Pattern(_) => kind == 3,
            RunParameter::ObjectExtraction { .. } => kind == 4,
            RunParameter::ArithmeticOp { .. } => kind == 5,
            _ => false,
        };
        if hit {
            assert(param_kind_is(params@[i as int], kind));
            return true;
        }
        i = i + 1;
    }
    false
}

/// The parameter has the kind with code `kind` (see `has_param_kind`).
pub open spec fn param_kind_is(p: RunParameter, kind: u8) -> bool {
    match p {
        RunParameter::Delimiter(_) => kind == 0,
        RunParameter::StartPosition(_) => kind == 1,
        RunParameter::Length(_) => kind == 2,
        RunParameter::Pattern(_) => kind == 3,
        RunParameter::ObjectExtraction { .. } => kind == 4,
        RunParameter::ArithmeticOp { .. } => kind == 5,
        _ => false,
    }
}

/// A RUN operation: computes `target_variable` from its parameters.
#[derive(Debug)]
pub struct RuntimeOperation {
    pub target_variable: String,
    pub operation_type: RuntimeOperationType,
    pub parameters: Vec<RunParameter>,
}

impl RuntimeOperation {
    /// The variables the parameters refer to, in order.
    pub fn get_variable_references(&self) -> (res: Vec<String>)
        ensures
            res@.map_values(|r: String| r@) == params_var_refs(self.parameters@),
    {
        let mut out: Vec<String> = Vec::new();
        let mut i: usize = 0;
        while i < self.parameters.len()
            invariant
                i <= self.parameters@.len(),
                out@.map_values(|r: String| r@) == params_var_refs(self.parameters@.subrange(0, i as int)),
            decreases self.parameters@.len() - i,
        {
            proof {
                assert(self.parameters@.subrange(0, i + 1).drop_last() =~= self.parameters@.subrange(0, i as int));
            }
            let ghost prev = out@;
            let name: Option<&String> = match &self.parameters[i] {
                RunParameter::Variable(n) => Some(n),
                RunParameter::Literal(v) => v.get_variable_name(),
                RunParameter::ArithmeticOp { operand, .. } => operand.get_variable_name(),
                _ => None,
            };
            match name {
                Some(n) => {
                    out.push(n.clone());
                    proof {
                        assert(out@.map_values(|r: String| r@) =~= prev.map_values(|r: String| r@) + seq![n@]);
                    }
                },
                None => {
                    proof {
                        assert(out@.map_values(|r: String| r@) =~= prev.map_values(|r: String| r@)
                            + param_var_refs(self.parameters@[i as int]));
                    }
                },
            }
            i = i + 1;
        }
        proof {
            assert(self.parameters@.subrange(0, self.parameters@.len() as int) =~= self.parameters@);
        }
        out
    }

    /// Whether some parameter refers to a variable.
    pub fn has_variable_references(&self) -> (res: bool)
        ensures
            res == (params_var_refs(self.parameters@).len() > 0),
    {
        self.get_variable_references().len() > 0
    }

    /// The objects that object-extraction parameters read from, in order.
    pub fn get_object_dependencies(&self) -> (res: Vec<String>)
        ensures
            res@.map_values(|r: String| r@) == params_object_refs(self.parameters@),
    {
        let mut out: Vec<String> = Vec::new();
        let mut i: usize = 0;
        while i < self.parameters.len()
            invariant
                i <= self.parameters@.len(),
                out@.map_values(|r: String| r@) == params_object_refs(self.parameters@.subrange(0, i as int)),
            decreases self.parameters@.len() - i,
        {
            proof {
                assert(self.parameters@.subrange(0, i + 1).drop_last() =~= self.parameters@.subrange(0, i as int));
            }
            let ghost prev = out@;
            match &self.parameters[i] {
                RunParameter::ObjectExtraction { object_id, .. } => {
                    out.push(object_id.clone());
                    proof {
                        assert(out@.map_values(|r: String| r@) =~= prev.map_values(|r: String| r@) + seq![object_id@]);
                    }
                },
                _ => {},
            }
            i = i + 1;
        }
        proof {
            assert(self.parameters@.subrange(0, self.parameters@.len() as int) =~= self.parameters@);
        }
        out
    }

    /// Whether some parameter extracts a field of an object.
    pub fn has_object_dependency(&self) -> (res: bool)
        ensures
            res == (params_object_refs(self.parameters@).len() > 0),
    {
        self.get_object_dependencies().len() > 0
    }

    /// Structural check: the parameter that the operation kind needs is present.
    pub fn validate(&self) -> (res: Result<(), String>)
        ensures
            match res {
                Ok(()) => params_ok(self.operation_type, self.parameters@),
                Err(msg) => !params_ok(self.operation_type, self.parameters@)
                    && msg@ == params_message(self.operation_type, self.target_variable@),
            },
    {
        let t = self.target_variable.as_str();
        match self.operation_type {
            RuntimeOperationType::Split => {
                if !has_param_kind(&self.parameters, 0) {
                    proof { self.lemma_kind_missing(0, |p: RunParameter| p is Delimiter); }
                    return Err(concat3("SPLIT operation '", t, "' requires a delimiter parameter"));
                }
                proof { self.lemma_kind_present(0, |p: RunParameter| p is Delimiter); }
            },
            RuntimeOperationType::Substring => {
                let s = has_param_kind(&self.parameters, 1);
                let l = has_param_kind(&self.parameters, 2);
                if !s || !l {
                    proof {
                        if !s { self.lemma_kind_missing(1, |p: RunParameter| p is StartPosition); }
                        if !l { self.lemma_kind_missing(2, |p: RunParameter| p is Length); }
                    }
                    return Err(concat3("SUBSTRING operation '", t, "' requires start and length parameters"));
                }
                proof {
                    self.lemma_kind_present(1, |p: RunParameter| p is StartPosition);
                    self.lemma_kind_present(2, |p: RunParameter| p is Length);
                }
            },
            RuntimeOperationType::RegexCapture => {
                if !has_param_kind(&self.parameters, 3) {
                    proof { self.lemma_kind_missing(3, |p: RunParameter| p is Pattern); }
                    return Err(concat3("REGEX_CAPTURE operation '", t, "' requires a pattern parameter"));
                }
                proof { self.lemma_kind_present(3, |p: RunParameter| p is Pattern); }
            },
            RuntimeOperationType::Extract => {
                if !has_param_kind(&self.parameters, 4) {
                    proof { self.lemma_kind_missing(4, |p: RunParameter| p is ObjectExtraction); }
                    return Err(concat3("EXTRACT operation '", t, "' requires an object extraction parameter"));
                }
                proof { self.lemma_kind_present(4, |p: RunParameter| p is ObjectExtraction); }
            },
            RuntimeOperationType::Arithmetic => {
                if !has_param_kind(&self.parameters, 5) {
                    proof { self.lemma_kind_missing(5, |p: RunParameter| p is ArithmeticOp); }
                    return Err(concat3("ARITHMETIC operation '", t, "' requires arithmetic operator parameters"));
                }
                proof { self.lemma_kind_present(5, |p: RunParameter| p is ArithmeticOp); }
            },
            _ => {},
        }
        Ok(())
    }

    proof fn lemma_kind_missing(&self, kind: u8, pick: spec_fn(RunParameter) -> bool)
        requires
            forall|p: RunParameter| pick(p) == param_kind_is(p, kind),
            !(exists|i: int| 0 <= i < self.parameters@.len() && #[trigger] param_kind_is(self.parameters@[i], kind)),
        ensures
            !has_param(self.parameters@, pick),
    {
        if has_param(self.parameters@, pick) {
            let i = choose|i: int| 0 <= i < self.parameters@.len() && pick(#[trigger] self.parameters@[i]);
            assert(param_kind_is(self.parameters@[i], kind));
        }
    }

    proof fn lemma_kind_present(&self, kind: u8, pick: spec_fn(RunParameter) -> bool)
        requires
            forall|p: RunParameter| pick(p) == param_kind_is(p, kind),
            exists|i: int| 0 <= i < self.parameters@.len() && #[trigger] param_kind_is(self.parameters@[i], kind),
        ensures
            has_param(self.parameters@, pick),
    {
        let i = choose|i: int| 0 <= i < self.parameters@.len() && #[trigger] param_kind_is(self.parameters@[i], kind);
        assert(pick(self.parameters@[i]));
    }

    /// Operations that read object fields wait for scan time; all others are
    /// evaluated during resolution.
    pub fn categorize(&self) -> (res: OperationCategory)
        ensures
            res == (if params_object_refs(self.parameters@).len() > 0 {
                OperationCategory::ScanTime
            } else {
                OperationCategory::ResolutionTime
            }),
    {
        if self.has_object_dependency() {
            OperationCategory::ScanTime
        } else {
            OperationCategory::ResolutionTime
        }
    }
}

/// The name of each RuntimeOperationType variant, as `Debug` prints it.
pub open spec fn runtime_operation_debug(t: RuntimeOperationType) -> Seq<char> {
    match t {
        RuntimeOperationType::Concat => "Concat"@,
        RuntimeOperationType::Split => "Split"@,
        RuntimeOperationType::Substring => "Substring"@,
        RuntimeOperationType::RegexCapture => "RegexCapture"@,
        RuntimeOperationType::Arithmetic => "Arithmetic"@,
        RuntimeOperationType::Count => "Count"@,
        RuntimeOperationType::Unique => "Unique"@,
        RuntimeOperationType::End => "End"@,
        RuntimeOperationType::Merge => "Merge"@,
        RuntimeOperationType::Extract => "Extract"@,
    }
}

impl RuntimeOperationType {
    /// The name of the variant, as `Debug` prints it.
    pub fn debug_name(&self) -> (res: &'static str)
        ensures
            res@ == runtime_operation_debug(*self),
    {
        match self {
            RuntimeOperationType::Concat => "Concat",
            RuntimeOperationType::Split => "Split",
            RuntimeOperationType::Substring => "Substring",
            RuntimeOperationType::RegexCapture => "RegexCapture",
            RuntimeOperationType::Arithmetic => "Arithmetic",
            RuntimeOperationType::Count => "Count",
            RuntimeOperationType::Unique => "Unique",
            RuntimeOperationType::End => "End",
            RuntimeOperationType::Merge => "Merge",
            RuntimeOperationType::Extract => "Extract",
        }
    }
}

} // verus!
