//! SET declarations (union, intersection, complement) and their resolved form.

use vstd::prelude::*;
use crate::strings::{str_eq, concat2, usize_to_string, decimal};
use crate::types::filter::{FilterSpec, ResolvedFilterSpec};
use crate::types::object::{ObjectDeclaration, ResolvedObject, elements_var_refs, collect_element_var_refs};

verus! {

/// The kind of a SET operation.
#[derive(Debug, Clone, Copy, PartialEq, Eq, Structural)]
pub enum SetOperationType {
    Union,
    Intersection,
    Complement,
}

/// The spelling of each operation kind in ESP definitions.
pub open spec fn set_operation_name(t: SetOperationType) -> Seq<char> {
    match t {
        SetOperationType::Union => "union"@,
        SetOperationType::Intersection => "intersection"@,
        SetOperationType::Complement => "complement"@,
    }
}

/// Whether `n` operands are allowed for the operation kind: at least one for
/// a union, at least two for an intersection, exactly two for a complement.
pub open spec fn operand_count_ok(t: SetOperationType, n: nat) -> bool {
    match t {
        SetOperationType::Union => n >= 1,
        SetOperationType::Intersection => n >= 2,
        SetOperationType::Complement => n == 2,
    }
}

/// The message that reports a wrong operand count.
pub open spec fn operand_count_message(t: SetOperationType, n: nat) -> Seq<char> {
    match t {
        SetOperationType::Union => "UNION requires at least 1 operand, got "@ + decimal(n),
        SetOperationType::Intersection => "INTERSECTION requires at least 2 operands, got "@ + decimal(n),
        SetOperationType::Complement => "COMPLEMENT requires exactly 2 operands, got "@ + decimal(n),
    }
}

impl SetOperationType {
    /// Parse `union`, `intersection` or `complement`.
    pub fn from_str(s: &str) -> (res: Option<SetOperationType>)
        ensures
            match res {
                Some(t) => set_operation_name(t) == s@,
                None => forall|t: SetOperationType| set_operation_name(t) != s@,
            },
    {
        if str_eq(s, "union") {
            Some(SetOperationType::Union)
        } else if str_eq(s, "intersection") {
            Some(SetOperationType::Intersection)
        } else if str_eq(s, "complement") {
            Some(SetOperationType::Complement)
        } else {
            proof {
                assert forall|t: SetOperationType| set_operation_name(t) != s@ by {
                    match t {
                        SetOperationType::Union => {},
                        SetOperationType::Intersection => {},
                        SetOperationType::Complement => {},
                    }
                }
            }
            None
        }
    }

    /// The spelling of this operation kind.
    pub fn as_str(&self) -> (res: &'static str)
        ensures
            res@ == set_operation_name(*self),
    {
        match self {
            SetOperationType::Union => "union",
            SetOperationType::Intersection => "intersection",
            SetOperationType::Complement => "complement",
        }
    }

    /// Check the number of operands against the operation kind.
    pub fn validate_operand_count(&self, count: usize) -> (res: Result<(), String>)
        ensures
            match res {
                Ok(()) => operand_count_ok(*self, count as nat),
                Err(msg) => !operand_count_ok(*self, count as nat)
                    && msg@ == operand_count_message(*self, count as nat),
            },
    {
        match self {
            SetOperationType::Union => {
                if count >= 1 {
                    Ok(())
                } else {
                    Err(concat2("UNION requires at least 1 operand, got ", usize_to_string(count).as_str()))
                }
            },
            SetOperationType::Intersection => {
                if count >= 2 {
                    Ok(())
                } else {
                    Err(concat2("INTERSECTION requires at least 2 operands, got ", usize_to_string(count).as_str()))
                }
            },
            SetOperationType::Complement => {
                if count == 2 {
                    Ok(())
                } else {
                    Err(concat2("COMPLEMENT requires exactly 2 operands, got ", usize_to_string(count).as_str()))
                }
            },
        }
    }
}

/// An operand of a SET operation.
#[derive(Debug)]
pub enum SetOperand {
    ObjectRef(String),
    SetRef(String),
    InlineObject(ObjectDeclaration),
}

impl SetOperand {
    /// The name of the operand kind.
    pub fn operand_type_name(&self) -> (res: &'static str)
        ensures
            res@ == (match *self {
                SetOperand::ObjectRef(..) => "ObjectRef"@,
                SetOperand::SetRef(..) => "SetRef"@,
                SetOperand::InlineObject(..) => "InlineObject"@,
            }),
    {
        match self {
            SetOperand::ObjectRef(..) => "ObjectRef",
            SetOperand::SetRef(..) => "SetRef",
            SetOperand::InlineObject(..) => "InlineObject",
        }
    }
}

/// The objects referenced by a list of operands, in order.
pub open spec fn operands_object_refs(s: Seq<SetOperand>) -> Seq<Seq<char>>
    decreases s.len(),
{
    if s.len() == 0 {
        Seq::empty()
    } else {
        operands_object_refs(s.drop_last()) + match s.last() {
            SetOperand::ObjectRef(id) => seq![id@],
            _ => Seq::empty(),
        }
    }
}

/// The sets referenced by a list of operands, in order.
pub open spec fn operands_set_refs(s: Seq<SetOperand>) -> Seq<Seq<char>>
    decreases s.len(),
{
    if s.len() == 0 {
        Seq::empty()
    } else {
        operands_set_refs(s.drop_last()) + match s.last() {
            SetOperand::SetRef(id) => seq![id@],
            _ => Seq::empty(),
        }
    }
}

/// The variables referenced by the inline objects of a list of operands, in order.
pub open spec fn operands_var_refs(s: Seq<SetOperand>) -> Seq<Seq<char>>
    decreases s.len(),
{
    if s.len() == 0 {
        Seq::empty()
    } else {
        operands_var_refs(s.drop_last()) + match s.last() {
            SetOperand::InlineObject(o) => elements_var_refs(o.elements@),
            _ => Seq::empty(),
        }
    }
}

/// A SET declaration.
#[derive(Debug)]
pub struct SetOperation {
    pub set_id: String,
    pub operation: SetOperationType,
    pub operands: Vec<SetOperand>,
    pub filter: Option<FilterSpec>,
}

/// The state references of an optional filter.
pub open spec fn filter_refs(f: Option<FilterSpec>) -> Seq<Seq<char>> {
    match f {
        Some(f) => f.state_refs@.map_values(|r: String| r@),
        None => Seq::empty(),
    }
}

impl SetOperation {
    /// Whether the SET carries a filter.
    pub fn has_filter(&self) -> (res: bool)
        ensures
            res == self.filter is Some,
    {
        self.filter.is_some()
    }

    /// Structural check: the operand count suits the operation kind.
    pub fn validate(&self) -> (res: Result<(), String>)
        ensures
            match res {
                Ok(()) => operand_count_ok(self.operation, self.operands@.len()),
                Err(msg) => !operand_count_ok(self.operation, self.operands@.len())
                    && msg@ == operand_count_message(self.operation, self.operands@.len()),
            },
    {
        self.operation.validate_operand_count(self.operands.len())
    }

    /// The objects referenced directly by the operands, in order.
    pub fn get_object_references(&self) -> (res: Vec<String>)
        ensures
            res@.map_values(|r: String| r@) == operands_object_refs(self.operands@),
    {
        let mut out: Vec<String> = Vec::new();
        let mut i: usize = 0;
        while i < self.operands.len()
            invariant
                i <= self.operands@.len(),
                out@.map_values(|r: String| r@) == operands_object_refs(self.operands@.subrange(0, i as int)),
            decreases self.operands@.len() - i,
        {
            proof {
                assert(self.operands@.subrange(0, i + 1).drop_last() =~= self.operands@.subrange(0, i as int));
            }
            let ghost prev = out@;
            match &self.operands[i] {
                SetOperand::ObjectRef(id) => {
                    out.push(id.clone());
                    proof {
                        assert(out@.map_values(|r: String| r@) =~= prev.map_values(|r: String| r@) + seq![id@]);
                    }
                },
                _ => {},
            }
            i = i + 1;
        }
        proof {
            assert(self.operands@.subrange(0, self.operands@.len() as int) =~= self.operands@);
        }
        out
    }

    /// The sets referenced by the operands, in order.
    pub fn get_set_references(&self) -> (res: Vec<String>)
        ensures
            res@.map_values(|r: String| r@) == operands_set_refs(self.operands@),
    {
        let mut out: Vec<String> = Vec::new();
        let mut i: usize = 0;
        while i < self.operands.len()
            invariant
                i <= self.operands@.len(),
                out@.map_values(|r: String| r@) == operands_set_refs(self.operands@.subrange(0, i as int)),
            decreases self.operands@.len() - i,
        {
            proof {
                assert(self.operands@.subrange(0, i + 1).drop_last() =~= self.operands@.subrange(0, i as int));
            }
            let ghost prev = out@;
            match &self.operands[i] {
                SetOperand::SetRef(id) => {
                    out.push(id.clone());
                    proof {
                        assert(out@.map_values(|r: String| r@) =~= prev.map_values(|r: String| r@) + seq![id@]);
                    }
                },
                _ => {},
            }
            i = i + 1;
        }
        proof {
            assert(self.operands@.subrange(0, self.operands@.len() as int) =~= self.operands@);
        }
        out
    }

    /// The variables referenced by the inline objects among the operands, in order.
    pub fn get_variable_references(&self) -> (res: Vec<String>)
        ensures
            res@.map_values(|r: String| r@) == operands_var_refs(self.operands@),
    {
        let mut out: Vec<String> = Vec::new();
        let mut i: usize = 0;
        while i < self.operands.len()
            invariant
                i <= self.operands@.len(),
                out@.map_values(|r: String| r@) == operands_var_refs(self.operands@.subrange(0, i as int)),
            decreases self.operands@.len() - i,
        {
            proof {
                assert(self.operands@.subrange(0, i + 1).drop_last() =~= self.operands@.subrange(0, i as int));
            }
            let ghost prev = out@;
            match &self.operands[i] {
                SetOperand::InlineObject(o) => {
                    let mut refs = collect_element_var_refs(&o.elements);
                    let ghost r = refs@;
                    out.append(&mut refs);
                    proof {
                        assert(out@.map_values(|r: String| r@) =~= prev.map_values(|r: String| r@)
                            + r.map_values(|r: String| r@));
                    }
                },
                _ => {},
            }
            i = i + 1;
        }
        proof {
            assert(self.operands@.subrange(0, self.operands@.len() as int) =~= self.operands@);
        }
        out
    }

    /// Whether some inline object among the operands refers to a variable.
    pub fn has_variable_references(&self) -> (res: bool)
        ensures
            res == (operands_var_refs(self.operands@).len() > 0),
    {
        self.get_variable_references().len() > 0
    }

    /// The states referenced by the SET's filter, if it has one.
    pub fn get_filter_state_dependencies(&self) -> (res: Vec<String>)
        ensures
            res@.map_values(|r: String| r@) == filter_refs(self.filter),
    {
        match &self.filter {
            Some(f) => f.get_state_dependencies(),
            None => Vec::new(),
        }
    }
}

/// An operand after resolution.
#[derive(Debug)]
pub enum ResolvedSetOperand {
    ObjectRef(String),
    SetRef(String),
    InlineObject(ResolvedObject),
}

/// A SET after resolution.
#[derive(Debug)]
pub struct ResolvedSetOperation {
    pub set_id: String,
    pub operation: SetOperationType,
    pub resolved_operands: Vec<ResolvedSetOperand>,
    pub resolved_filter: Option<ResolvedFilterSpec>,
}

/// The name of each SetOperationType variant, as `Debug` prints it.
pub open spec fn set_operation_debug(t: SetOperationType) -> Seq<char> {
    match t {
        SetOperationType::Union => "Union"@,
        SetOperationType::Intersection => "Intersection"@,
        SetOperationType::Complement => "Complement"@,
    }
}

impl SetOperationType {
    /// The name of the variant, as `Debug` prints it.
    pub fn debug_name(&self) -> (res: &'static str)
        ensures
            res@ == set_operation_debug(*self),
    {
        match self {
            SetOperationType::Union => "Union",
            SetOperationType::Intersection => "Intersection",
            SetOperationType::Complement => "Complement",
        }
    }
}

} // verus!
