//! State declarations: the expected values that collected data is tested against.

use vstd::prelude::*;
use crate::strings::str_eq;
use crate::types::common::{DataType, Operation, Value, ResolvedValue, spec_variable_name};

verus! {

/// How many collected entities must satisfy a field check.
#[derive(Debug, Clone, Copy, PartialEq, Eq, Structural)]
pub enum EntityCheck {
    All,
    AtLeastOne,
    NoneSatisfy,
    OnlyOne,
}

/// The entity check spelled `s` (its variant name), if any.
pub open spec fn entity_check_of(s: Seq<char>) -> Option<EntityCheck> {
    if s == "All"@ {
        Some(EntityCheck::All)
    } else if s == "AtLeastOne"@ {
        Some(EntityCheck::AtLeastOne)
    } else if s == "NoneSatisfy"@ {
        Some(EntityCheck::NoneSatisfy)
    } else if s == "OnlyOne"@ {
        Some(EntityCheck::OnlyOne)
    } else {
        None
    }
}

/// The name of each entity check, as `Debug` prints it.
pub open spec fn entity_check_name(c: EntityCheck) -> Seq<char> {
    match c {
        EntityCheck::All => "All"@,
        EntityCheck::AtLeastOne => "AtLeastOne"@,
        EntityCheck::NoneSatisfy => "NoneSatisfy"@,
        EntityCheck::OnlyOne => "OnlyOne"@,
    }
}

/// Parsing an entity check name gives the check of that name, and only
/// those names parse.
pub proof fn lemma_entity_check_round_trip(c: EntityCheck)
    ensures
        entity_check_of(entity_check_name(c)) == Some(c),
        forall|s: Seq<char>| #[trigger] entity_check_of(s) == Some(c) ==> s == entity_check_name(c),
{
    reveal_strlit("All");
    reveal_strlit("AtLeastOne");
    reveal_strlit("NoneSatisfy");
    reveal_strlit("OnlyOne");
    assert("All"@.len() == 3 && "AtLeastOne"@.len() == 10 && "NoneSatisfy"@.len() == 11 && "OnlyOne"@.len() == 7);
}

impl EntityCheck {
    /// Parse an entity check from its variant name.
    pub fn from_str(s: &str) -> (res: Option<EntityCheck>)
        ensures
            res == entity_check_of(s@),
            match res {
                Some(c) => entity_check_name(c) == s@,
                None => forall|c: EntityCheck| entity_check_name(c) != s@,
            },
    {
        if str_eq(s, "All") {
            Some(EntityCheck::All)
        } else if str_eq(s, "AtLeastOne") {
            Some(EntityCheck::AtLeastOne)
        } else if str_eq(s, "NoneSatisfy") {
            Some(EntityCheck::NoneSatisfy)
        } else if str_eq(s, "OnlyOne") {
            Some(EntityCheck::OnlyOne)
        } else {
            proof {
                assert forall|c: EntityCheck| entity_check_name(c) != s@ by {
                    match c {
                        EntityCheck::All => {},
                        EntityCheck::AtLeastOne => {},
                        EntityCheck::NoneSatisfy => {},
                        EntityCheck::OnlyOne => {},
                    }
                }
            }
            None
        }
    }
}

/// A dotted path into record data.
#[derive(Debug)]
pub struct FieldPath {
    pub components: Vec<String>,
}

/// One field check of a state.
#[derive(Debug)]
pub struct StateField {
    pub name: String,
    pub data_type: DataType,
    pub operation: Operation,
    pub value: Value,
    pub entity_check: Option<EntityCheck>,
}

/// One field check inside a record check.
#[derive(Debug)]
pub struct RecordField {
    pub path: FieldPath,
    pub data_type: DataType,
    pub operation: Operation,
    pub value: Value,
    pub entity_check: Option<EntityCheck>,
}

/// The body of a record check.
#[derive(Debug)]
pub enum RecordContent {
    Direct { operation: Operation, value: Value },
    Nested { fields: Vec<RecordField> },
}

/// A check on record-typed data.
#[derive(Debug)]
pub struct RecordCheck {
    pub data_type: Option<DataType>,
    pub content: RecordContent,
}

/// A state declaration: global, or local to one criterion.
#[derive(Debug)]
pub struct StateDeclaration {
    pub identifier: String,
    pub fields: Vec<StateField>,
    pub record_checks: Vec<RecordCheck>,
    pub is_global: bool,
}

/// A reference from a criterion to a global state.
#[derive(Debug)]
pub struct StateRef {
    pub state_id: String,
}

impl StateRef {
    /// A reference to the state `state_id`.
    pub fn new(state_id: &str) -> (res: StateRef)
        ensures
            res.state_id@ == state_id@,
    {
        StateRef { state_id: String::from_str(state_id) }
    }
}

/// The variable named by a value, as a (possibly empty) sequence.
pub open spec fn value_var_ref(v: Value) -> Seq<Seq<char>> {
    match spec_variable_name(v) {
        Some(n) => seq![n],
        None => Seq::empty(),
    }
}

/// The variables referenced by a list of state fields, in order.
pub open spec fn fields_var_refs(s: Seq<StateField>) -> Seq<Seq<char>>
    decreases s.len(),
{
    if s.len() == 0 {
        Seq::empty()
    } else {
        fields_var_refs(s.drop_last()) + value_var_ref(s.last().value)
    }
}

/// The variables referenced by a list of record fields, in order.
pub open spec fn record_fields_var_refs(s: Seq<RecordField>) -> Seq<Seq<char>>
    decreases s.len(),
{
    if s.len() == 0 {
        Seq::empty()
    } else {
        record_fields_var_refs(s.drop_last()) + value_var_ref(s.last().value)
    }
}

/// The variables referenced by one record check.
pub open spec fn record_check_var_refs(c: RecordCheck) -> Seq<Seq<char>> {
    match c.content {
        RecordContent::Direct { value, .. } => value_var_ref(value),
        RecordContent::Nested { fields } => record_fields_var_refs(fields@),
    }
}

/// The variables referenced by a list of record checks, in order.
pub open spec fn record_checks_var_refs(s: Seq<RecordCheck>) -> Seq<Seq<char>>
    decreases s.len(),
{
    if s.len() == 0 {
        Seq::empty()
    } else {
        record_checks_var_refs(s.drop_last()) + record_check_var_refs(s.last())
    }
}

/// The variables referenced by a state: its fields first, then its record checks.
pub open spec fn state_var_refs(s: StateDeclaration) -> Seq<Seq<char>> {
    fields_var_refs(s.fields@) + record_checks_var_refs(s.record_checks@)
}

/// Append the variable named by `v`, if any, to `out`.
fn push_value_var(v: &Value, out: &mut Vec<String>)
    ensures
        final(out)@.map_values(|r: String| r@) == old(out)@.map_values(|r: String| r@) + value_var_ref(*v),
{
    match v {
        Value::Variable(n) => {
            let ghost prev = out@;
            out.push(n.clone());
            proof {
                assert(out@.map_values(|r: String| r@) =~= prev.map_values(|r: String| r@) + seq![n@]);
            }
        },
        _ => {
            assert(out@.map_values(|r: String| r@) =~= out@.map_values(|r: String| r@) + value_var_ref(*v));
        },
    }
}

impl StateDeclaration {
    /// The variables referenced by this state, in declaration order.
    pub fn get_variable_references(&self) -> (res: Vec<String>)
        ensures
            res@.map_values(|r: String| r@) == state_var_refs(*self),
    {
        let mut out: Vec<String> = Vec::new();
        let mut i: usize = 0;
        while i < self.fields.len()
            invariant
                i <= self.fields@.len(),
                out@.map_values(|r: String| r@) == fields_var_refs(self.fields@.subrange(0, i as int)),
            decreases self.fields@.len() - i,
        {
            proof {
                assert(self.fields@.subrange(0, i + 1).drop_last() =~= self.fields@.subrange(0, i as int));
            }
            push_value_var(&self.fields[i].value, &mut out);
            i = i + 1;
        }
        proof {
            assert(self.fields@.subrange(0, self.fields@.len() as int) =~= self.fields@);
        }
        let ghost mid = out@.map_values(|r: String| r@);
        let mut k: usize = 0;
        while k < self.record_checks.len()
            invariant
                k <= self.record_checks@.len(),
                mid == fields_var_refs(self.fields@),
                out@.map_values(|r: String| r@) == mid + record_checks_var_refs(self.record_checks@.subrange(0, k as int)),
            decreases self.record_checks@.len() - k,
        {
            proof {
                assert(self.record_checks@.subrange(0, k + 1).drop_last() =~= self.record_checks@.subrange(0, k as int));
            }
            let ghost before = out@.map_values(|r: String| r@);
            match &self.record_checks[k].content {
                RecordContent::Direct { value, .. } => {
                    push_value_var(value, &mut out);
                },
                RecordContent::Nested { fields } => {
                    let mut j: usize = 0;
                    while j < fields.len()
                        invariant
                            j <= fields@.len(),
                            out@.map_values(|r: String| r@) == before + record_fields_var_refs(fields@.subrange(0, j as int)),
                        decreases fields@.len() - j,
                    {
                        proof {
                            assert(fields@.subrange(0, j + 1).drop_last() =~= fields@.subrange(0, j as int));
                        }
                        push_value_var(&fields[j].value, &mut out);
                        j = j + 1;
                    }
                    proof {
                        assert(fields@.subrange(0, fields@.len() as int) =~= fields@);
                    }
                },
            }
            proof {
                assert(out@.map_values(|r: String| r@) =~= mid + record_checks_var_refs(self.record_checks@.subrange(0, k + 1)));
            }
            k = k + 1;
        }
        proof {
            assert(self.record_checks@.subrange(0, self.record_checks@.len() as int) =~= self.record_checks@);
        }
        out
    }

    /// Whether some field or record check of this state refers to a variable.
    pub fn has_variable_references(&self) -> (res: bool)
        ensures
            res == (state_var_refs(*self).len() > 0),
    {
        self.get_variable_references().len() > 0
    }
}

/// A state field after resolution.
#[derive(Debug)]
pub struct ResolvedStateField {
    pub name: String,
    pub data_type: DataType,
    pub operation: Operation,
    pub value: ResolvedValue,
    pub entity_check: Option<EntityCheck>,
}

/// A record field after resolution.
#[derive(Debug)]
pub struct ResolvedRecordField {
    pub path: FieldPath,
    pub data_type: DataType,
    pub operation: Operation,
    pub value: ResolvedValue,
    pub entity_check: Option<EntityCheck>,
}

/// The body of a record check after resolution.
#[derive(Debug)]
pub enum ResolvedRecordContent {
    Direct { operation: Operation, value: ResolvedValue },
    Nested { fields: Vec<ResolvedRecordField> },
}

/// A record check after resolution.
#[derive(Debug)]
pub struct ResolvedRecordCheck {
    pub data_type: Option<DataType>,
    pub content: ResolvedRecordContent,
}

/// A state after resolution.
#[derive(Debug)]
pub struct ResolvedState {
    pub identifier: String,
    pub resolved_fields: Vec<ResolvedStateField>,
    pub resolved_record_checks: Vec<ResolvedRecordCheck>,
    pub is_global: bool,
}

/// `s` cut at each '.', as `str::split('.')` cuts it: empty pieces kept,
/// one piece more than there are dots.
pub open spec fn dot_split(s: Seq<char>) -> Seq<Seq<char>>
    decreases s.len(),
{
    if s.len() == 0 {
        seq![Seq::empty()]
    } else {
        let p = dot_split(s.drop_last());
        if s.last() == '.' {
            p.push(Seq::empty())
        } else {
            p.update(p.len() - 1, p.last().push(s.last()))
        }
    }
}

/// A split always has at least one piece.
proof fn lemma_dot_split_nonempty(s: Seq<char>)
    ensures
        dot_split(s).len() >= 1,
    decreases s.len(),
{
    if s.len() > 0 {
        lemma_dot_split_nonempty(s.drop_last());
    }
}

/// Cut `s` at each '.'.
pub fn split_dots(s: &str) -> (res: Vec<String>)
    ensures
        res@.map_values(|x: String| x@) == dot_split(s@),
{
    let n = s.unicode_len();
    let mut pieces: Vec<String> = Vec::new();
    let mut start: usize = 0;
    let mut i: usize = 0;
    proof {
        assert(s@.subrange(0, 0) =~= Seq::<char>::empty());
        assert(pieces@.map_values(|x: String| x@).push(s@.subrange(0, 0)) =~= dot_split(s@.subrange(0, 0)));
    }
    while i < n
        invariant
            n == s@.len(),
            start <= i <= n,
            pieces@.map_values(|x: String| x@).push(s@.subrange(start as int, i as int)) == dot_split(s@.subrange(0, i as int)),
        decreases n - i,
    {
        let c = s.get_char(i);
        let ghost pv = pieces@.map_values(|x: String| x@);
        proof {
            let sub = s@.subrange(0, i + 1);
            assert(sub.drop_last() =~= s@.subrange(0, i as int));
            assert(sub.last() == c);
            lemma_dot_split_nonempty(s@.subrange(0, i as int));
        }
        if c == '.' {
            let piece = s.substring_char(start, i);
            pieces.push(crate::strings::to_owned_string(piece));
            proof {
                assert(pieces@.map_values(|x: String| x@) =~= pv.push(s@.subrange(start as int, i as int)));
                assert(s@.subrange(i + 1, i + 1) =~= Seq::<char>::empty());
            }
            start = i + 1;
        } else {
            proof {
                assert(s@.subrange(start as int, i + 1) =~= s@.subrange(start as int, i as int).push(c));
                assert(pv.push(s@.subrange(start as int, i + 1)) =~= pv.push(s@.subrange(start as int, i as int))
                    .update(pv.len() as int, s@.subrange(start as int, i as int).push(c)));
            }
        }
        i = i + 1;
    }
    let last = s.substring_char(start, n);
    pieces.push(crate::strings::to_owned_string(last));
    proof {
        assert(s@.subrange(0, n as int) =~= s@);
    }
    pieces
}

impl FieldPath {
    /// A path of the given components.
    pub fn new(components: Vec<String>) -> (res: FieldPath)
        ensures
            res.components == components,
    {
        FieldPath { components }
    }

    /// The path written `a.b.c`.
    pub fn from_dot_notation(path: &str) -> (res: FieldPath)
        ensures
            res.components@.map_values(|x: String| x@) == dot_split(path@),
    {
        FieldPath { components: split_dots(path) }
    }
}

} // verus!
