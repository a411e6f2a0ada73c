//! The resolution context: everything parsed from a definition, the symbol
//! relationships, deferred validations and the symbols resolved so far.

use vstd::prelude::*;
use crate::strings::str_eq;
use crate::string_map::{StringMap, CtnMap};
use crate::types::criterion::CtnNodeId;
use crate::types::criteria::CriteriaRoot;
use crate::types::metadata::MetaDataBlock;
use crate::types::variable::{VariableDeclaration, ResolvedVariable};
use crate::types::state::{StateDeclaration, ResolvedState};
use crate::types::object::{ObjectDeclaration, ResolvedObject};
use crate::types::set::{SetOperation, ResolvedSetOperation};
use crate::types::runtime_operation::{RuntimeOperation, RuntimeOperationType, RunParameter};

verus! {

/// Kinds of references whose existence is checked after parsing.
#[derive(Debug, Clone, Copy, PartialEq, Eq, Structural)]
pub enum ValidationType {
    VariableReference,
    StateReference,
    ObjectReference,
    SetReference,
    FilterStateReference,
    ObjectFieldExtraction,
    RunOperationTarget,
}

/// A reference whose existence is checked after parsing.
#[derive(Debug)]
pub struct DeferredValidation {
    pub validation_type: ValidationType,
    pub source_symbol: String,
    pub target_symbol: String,
    pub context: String,
}

/// A deferred validation as plain values: kind, source, target and context.
pub open spec fn deferral(d: DeferredValidation) -> (ValidationType, Seq<char>, Seq<char>, Seq<char>) {
    (d.validation_type, d.source_symbol@, d.target_symbol@, d.context@)
}

/// The deferred validations of a list, as plain values.
pub open spec fn deferrals(s: Seq<DeferredValidation>) -> Seq<(ValidationType, Seq<char>, Seq<char>, Seq<char>)> {
    s.map_values(|d: DeferredValidation| deferral(d))
}

/// One deferred validation of kind `t` from `source` for each of `targets`.
pub open spec fn deferrals_to(t: ValidationType, source: Seq<char>, targets: Seq<Seq<char>>, context: Seq<char>)
    -> Seq<(ValidationType, Seq<char>, Seq<char>, Seq<char>)>
{
    targets.map_values(|x: Seq<char>| (t, source, x, context))
}

/// Kinds of relationships between symbols reported by the compiler.
#[derive(Debug, Clone, Copy, PartialEq, Eq, Structural)]
pub enum RelationshipType {
    VariableInitialization,
    VariableUsage,
    ObjectFieldExtraction,
    StateReference,
    ObjectReference,
    SetReference,
    FilterDependency,
    RunOperationInput,
    RunOperationTarget,
    SetOperandDependency,
    LocalStateDependency,
    LocalObjectDependency,
}

/// The spelling of each relationship type.
pub open spec fn relationship_name(t: RelationshipType) -> Seq<char> {
    match t {
        RelationshipType::VariableInitialization => "VariableInitialization"@,
        RelationshipType::VariableUsage => "VariableUsage"@,
        RelationshipType::ObjectFieldExtraction => "ObjectFieldExtraction"@,
        RelationshipType::StateReference => "StateReference"@,
        RelationshipType::ObjectReference => "ObjectReference"@,
        RelationshipType::SetReference => "SetReference"@,
        RelationshipType::FilterDependency => "FilterDependency"@,
        RelationshipType::RunOperationInput => "RunOperationInput"@,
        RelationshipType::RunOperationTarget => "RunOperationTarget"@,
        RelationshipType::SetOperandDependency => "SetOperandDependency"@,
        RelationshipType::LocalStateDependency => "LocalStateDependency"@,
        RelationshipType::LocalObjectDependency => "LocalObjectDependency"@,
    }
}

/// Relationships that order resolution between global symbols.
pub open spec fn spec_is_hard_dependency(t: RelationshipType) -> bool {
    match t {
        RelationshipType::VariableInitialization => true,
        RelationshipType::VariableUsage => true,
        RelationshipType::ObjectReference => true,
        RelationshipType::SetReference => true,
        RelationshipType::FilterDependency => true,
        RelationshipType::SetOperandDependency => true,
        _ => false,
    }
}

impl RelationshipType {
    /// Parse a relationship type from its spelling.
    pub fn from_str(s: &str) -> (res: Option<RelationshipType>)
        ensures
            match res {
                Some(t) => relationship_name(t) == s@,
                None => forall|t: RelationshipType| relationship_name(t) != s@,
            },
    {
        if str_eq(s, "VariableInitialization") {
            Some(RelationshipType::VariableInitialization)
        } else if str_eq(s, "VariableUsage") {
            Some(RelationshipType::VariableUsage)
        } else if str_eq(s, "ObjectFieldExtraction") {
            Some(RelationshipType::ObjectFieldExtraction)
        } else if str_eq(s, "StateReference") {
            Some(RelationshipType::StateReference)
        } else if str_eq(s, "ObjectReference") {
            Some(RelationshipType::ObjectReference)
        } else if str_eq(s, "SetReference") {
            Some(RelationshipType::SetReference)
        } else if str_eq(s, "FilterDependency") {
            Some(RelationshipType::FilterDependency)
        } else if str_eq(s, "RunOperationInput") {
            Some(RelationshipType::RunOperationInput)
        } else if str_eq(s, "RunOperationTarget") {
            Some(RelationshipType::RunOperationTarget)
        } else if str_eq(s, "SetOperandDependency") {
            Some(RelationshipType::SetOperandDependency)
        } else if str_eq(s, "LocalStateDependency") {
            Some(RelationshipType::LocalStateDependency)
        } else if str_eq(s, "LocalObjectDependency") {
            Some(RelationshipType::LocalObjectDependency)
        } else {
            proof {
                assert forall|t: RelationshipType| relationship_name(t) != s@ by {
                    match t {
                        RelationshipType::VariableInitialization => {},
                        RelationshipType::VariableUsage => {},
                        RelationshipType::ObjectFieldExtraction => {},
                        RelationshipType::StateReference => {},
                        RelationshipType::ObjectReference => {},
                        RelationshipType::SetReference => {},
                        RelationshipType::FilterDependency => {},
                        RelationshipType::RunOperationInput => {},
                        RelationshipType::RunOperationTarget => {},
                        RelationshipType::SetOperandDependency => {},
                        RelationshipType::LocalStateDependency => {},
                        RelationshipType::LocalObjectDependency => {},
                    }
                }
            }
            None
        }
    }

    /// The spelling of this relationship type.
    pub fn as_str(&self) -> (res: &'static str)
        ensures
            res@ == relationship_name(*self),
    {
        match self {
            RelationshipType::VariableInitialization => "VariableInitialization",
            RelationshipType::VariableUsage => "VariableUsage",
            RelationshipType::ObjectFieldExtraction => "ObjectFieldExtraction",
            RelationshipType::StateReference => "StateReference",
            RelationshipType::ObjectReference => "ObjectReference",
            RelationshipType::SetReference => "SetReference",
            RelationshipType::FilterDependency => "FilterDependency",
            RelationshipType::RunOperationInput => "RunOperationInput",
            RelationshipType::RunOperationTarget => "RunOperationTarget",
            RelationshipType::SetOperandDependency => "SetOperandDependency",
            RelationshipType::LocalStateDependency => "LocalStateDependency",
            RelationshipType::LocalObjectDependency => "LocalObjectDependency",
        }
    }

    /// Whether the relationship orders resolution (becomes a graph edge).
    pub fn is_hard_dependency(&self) -> (res: bool)
        ensures
            res == spec_is_hard_dependency(*self),
    {
        match self {
            RelationshipType::VariableInitialization => true,
            RelationshipType::VariableUsage => true,
            RelationshipType::ObjectReference => true,
            RelationshipType::SetReference => true,
            RelationshipType::FilterDependency => true,
            RelationshipType::SetOperandDependency => true,
            _ => false,
        }
    }
}

/// A relationship between two symbols: `source` depends on `target`.
#[derive(Debug)]
pub struct SymbolRelationship {
    pub relationship_type: RelationshipType,
    pub source: String,
    pub target: String,
    pub ctn_context: Option<CtnNodeId>,
}

/// A RUN operation deferred to scan time.
#[derive(Debug)]
pub struct DeferredOperation {
    pub target_variable: String,
    pub operation_type: RuntimeOperationType,
    pub parameters: Vec<RunParameter>,
    pub source_object_id: Option<String>,
}

/// Everything known about a definition during resolution.
#[derive(Debug)]
pub struct ResolutionContext {
    pub metadata: Option<MetaDataBlock>,
    pub variables: Vec<VariableDeclaration>,
    pub computed_variables: Vec<String>,
    pub literal_variables: Vec<String>,
    pub reference_variables: Vec<(String, String)>,
    pub global_states: Vec<StateDeclaration>,
    pub global_objects: Vec<ObjectDeclaration>,
    pub runtime_operations: Vec<RuntimeOperation>,
    pub set_operations: Vec<SetOperation>,
    pub criteria_root: CriteriaRoot,
    pub ctn_local_states: CtnMap<Vec<StateDeclaration>>,
    pub ctn_local_objects: CtnMap<ObjectDeclaration>,
    pub relationships: Vec<SymbolRelationship>,
    pub deferred_validations: Vec<DeferredValidation>,
    pub parsing_errors: Vec<String>,
    pub resolved_variables: StringMap<ResolvedVariable>,
    pub resolved_global_states: StringMap<ResolvedState>,
    pub resolved_global_objects: StringMap<ResolvedObject>,
    pub resolved_sets: StringMap<ResolvedSetOperation>,
    pub resolved_local_objects: CtnMap<ResolvedObject>,
    pub resolved_local_states: CtnMap<Vec<ResolvedState>>,
    pub scan_time_operations: Vec<DeferredOperation>,
}

/// The maps of a context have distinct keys.
pub open spec fn context_wf(c: ResolutionContext) -> bool {
    &&& c.ctn_local_states.wf()
    &&& c.ctn_local_objects.wf()
    &&& c.resolved_variables.wf()
    &&& c.resolved_global_states.wf()
    &&& c.resolved_global_objects.wf()
    &&& c.resolved_sets.wf()
    &&& c.resolved_local_objects.wf()
    &&& c.resolved_local_states.wf()
}

/// Nothing of `c` is resolved yet and no operation is handed over to scan time.
pub open spec fn nothing_resolved(c: ResolutionContext) -> bool {
    &&& c.resolved_variables.entries@.len() == 0
    &&& c.resolved_global_states.entries@.len() == 0
    &&& c.resolved_global_objects.entries@.len() == 0
    &&& c.resolved_sets.entries@.len() == 0
    &&& c.resolved_local_objects.entries@.len() == 0
    &&& c.resolved_local_states.entries@.len() == 0
    &&& c.scan_time_operations@.len() == 0
}

impl ResolutionContext {
    /// A context with nothing parsed and nothing resolved.
    pub fn new() -> (res: ResolutionContext)
        ensures
            context_wf(res),
            res.metadata is None,
            res.variables@.len() == 0,
            res.computed_variables@.len() == 0,
            res.literal_variables@.len() == 0,
            res.reference_variables@.len() == 0,
            res.global_states@.len() == 0,
            res.global_objects@.len() == 0,
            res.runtime_operations@.len() == 0,
            res.set_operations@.len() == 0,
            res.criteria_root.trees@.len() == 0,
            res.ctn_local_states.entries@.len() == 0,
            res.ctn_local_objects.entries@.len() == 0,
            res.relationships@.len() == 0,
            res.deferred_validations@.len() == 0,
            res.parsing_errors@.len() == 0,
            res.resolved_variables.entries@.len() == 0,
            res.resolved_global_states.entries@.len() == 0,
            res.resolved_global_objects.entries@.len() == 0,
            res.resolved_sets.entries@.len() == 0,
            res.resolved_local_objects.entries@.len() == 0,
            res.resolved_local_states.entries@.len() == 0,
            res.scan_time_operations@.len() == 0,
    {
        ResolutionContext {
            metadata: None,
            variables: Vec::new(),
            computed_variables: Vec::new(),
            literal_variables: Vec::new(),
            reference_variables: Vec::new(),
            global_states: Vec::new(),
            global_objects: Vec::new(),
            runtime_operations: Vec::new(),
            set_operations: Vec::new(),
            criteria_root: CriteriaRoot::new(),
            ctn_local_states: CtnMap::new(),
            ctn_local_objects: CtnMap::new(),
            relationships: Vec::new(),
            deferred_validations: Vec::new(),
            parsing_errors: Vec::new(),
            resolved_variables: StringMap::new(),
            resolved_global_states: StringMap::new(),
            resolved_global_objects: StringMap::new(),
            resolved_sets: StringMap::new(),
            resolved_local_objects: CtnMap::new(),
            resolved_local_states: CtnMap::new(),
            scan_time_operations: Vec::new(),
        }
    }

    /// Record a non-fatal parsing error.
    pub fn add_parsing_error(&mut self, error: String)
        ensures
            *final(self) == (ResolutionContext { parsing_errors: final(self).parsing_errors, ..*old(self) }),
            final(self).parsing_errors@ == old(self).parsing_errors@.push(error),
            final(self).deferred_validations@ == old(self).deferred_validations@,
            context_wf(*old(self)) ==> context_wf(*final(self)),
    {
        self.parsing_errors.push(error);
    }

    /// Record a reference to validate later.
    pub fn add_deferred_validation(&mut self, validation: DeferredValidation)
        ensures
            *final(self) == (ResolutionContext { deferred_validations: final(self).deferred_validations, ..*old(self) }),
            final(self).deferred_validations@ == old(self).deferred_validations@.push(validation),
            final(self).parsing_errors@ == old(self).parsing_errors@,
            context_wf(*old(self)) ==> context_wf(*final(self)),
    {
        self.deferred_validations.push(validation);
    }

    /// Record a variable reference to validate later.
    pub fn defer_variable_reference_validation(&mut self, source: String, target: String, context: String)
        ensures
            *final(self) == (ResolutionContext { deferred_validations: final(self).deferred_validations, ..*old(self) }),
            final(self).deferred_validations@ == old(self).deferred_validations@.push(DeferredValidation {
                validation_type: ValidationType::VariableReference,
                source_symbol: source,
                target_symbol: target,
                context,
            }),
            final(self).parsing_errors@ == old(self).parsing_errors@,
            context_wf(*old(self)) ==> context_wf(*final(self)),
    {
        self.add_deferred_validation(DeferredValidation {
            validation_type: ValidationType::VariableReference,
            source_symbol: source,
            target_symbol: target,
            context,
        });
    }

    /// Record a state reference to validate later.
    pub fn defer_state_reference_validation(&mut self, source: String, target: String, context: String)
        ensures
            *final(self) == (ResolutionContext { deferred_validations: final(self).deferred_validations, ..*old(self) }),
            final(self).deferred_validations@ == old(self).deferred_validations@.push(DeferredValidation {
                validation_type: ValidationType::StateReference,
                source_symbol: source,
                target_symbol: target,
                context,
            }),
            final(self).parsing_errors@ == old(self).parsing_errors@,
            context_wf(*old(self)) ==> context_wf(*final(self)),
    {
        self.add_deferred_validation(DeferredValidation {
            validation_type: ValidationType::StateReference,
            source_symbol: source,
            target_symbol: target,
            context,
        });
    }

    /// Record an object reference to validate later.
    pub fn defer_object_reference_validation(&mut self, source: String, target: String, context: String)
        ensures
            *final(self) == (ResolutionContext { deferred_validations: final(self).deferred_validations, ..*old(self) }),
            final(self).deferred_validations@ == old(self).deferred_validations@.push(DeferredValidation {
                validation_type: ValidationType::ObjectReference,
                source_symbol: source,
                target_symbol: target,
                context,
            }),
            final(self).parsing_errors@ == old(self).parsing_errors@,
            context_wf(*old(self)) ==> context_wf(*final(self)),
    {
        self.add_deferred_validation(DeferredValidation {
            validation_type: ValidationType::ObjectReference,
            source_symbol: source,
            target_symbol: target,
            context,
        });
    }

    /// Note a variable computed by a RUN operation.
    pub fn add_computed_variable(&mut self, name: String)
        ensures
            *final(self) == (ResolutionContext { computed_variables: final(self).computed_variables, ..*old(self) }),
            final(self).computed_variables@ == old(self).computed_variables@.push(name),
            final(self).deferred_validations@ == old(self).deferred_validations@,
            context_wf(*old(self)) ==> context_wf(*final(self)),
    {
        self.computed_variables.push(name);
    }

    /// Note a variable with a literal initial value.
    pub fn add_literal_variable(&mut self, name: String)
        ensures
            *final(self) == (ResolutionContext { literal_variables: final(self).literal_variables, ..*old(self) }),
            final(self).literal_variables@ == old(self).literal_variables@.push(name),
            final(self).deferred_validations@ == old(self).deferred_validations@,
            context_wf(*old(self)) ==> context_wf(*final(self)),
    {
        self.literal_variables.push(name);
    }

    /// Note a variable initialised from another variable.
    pub fn add_reference_variable(&mut self, name: String, target: String)
        ensures
            *final(self) == (ResolutionContext { reference_variables: final(self).reference_variables, ..*old(self) }),
            final(self).reference_variables@ == old(self).reference_variables@.push((name, target)),
            final(self).deferred_validations@ == old(self).deferred_validations@,
            context_wf(*old(self)) ==> context_wf(*final(self)),
    {
        self.reference_variables.push((name, target));
    }
}


impl ResolutionContext {
    /// Record, for each of `targets`, a reference of kind `validation_type`
    /// from `source` to validate later.
    pub fn defer_all(&mut self, validation_type: ValidationType, source: &str, targets: &Vec<String>, context: &str)
        ensures
            deferrals(final(self).deferred_validations@) == deferrals(old(self).deferred_validations@)
                + deferrals_to(validation_type, source@, targets@.map_values(|t: String| t@), context@),
            *final(self) == (ResolutionContext { deferred_validations: final(self).deferred_validations, ..*old(self) }),
    {
        let ghost start = deferrals(self.deferred_validations@);
        let ghost tv = targets@.map_values(|t: String| t@);
        let mut i: usize = 0;
        proof {
            assert(deferrals_to(validation_type, source@, tv.subrange(0, 0), context@)
                =~= Seq::<(ValidationType, Seq<char>, Seq<char>, Seq<char>)>::empty());
            assert(deferrals(self.deferred_validations@) =~= start + Seq::<(ValidationType, Seq<char>, Seq<char>, Seq<char>)>::empty());
        }
        while i < targets.len()
            invariant
                i <= targets@.len(),
                tv == targets@.map_values(|t: String| t@),
                deferrals(self.deferred_validations@) == start
                    + deferrals_to(validation_type, source@, tv.subrange(0, i as int), context@),
                *self == (ResolutionContext { deferred_validations: self.deferred_validations, ..*old(self) }),
            decreases targets@.len() - i,
        {
            let ghost before = self.deferred_validations@;
            self.deferred_validations.push(DeferredValidation {
                validation_type,
                source_symbol: String::from_str(source),
                target_symbol: targets[i].clone(),
                context: String::from_str(context),
            });
            proof {
                assert(deferrals(self.deferred_validations@) =~= deferrals(before).push(
                    (validation_type, source@, targets@[i as int]@, context@)));
                assert(deferrals_to(validation_type, source@, tv.subrange(0, i + 1), context@) =~=
                    deferrals_to(validation_type, source@, tv.subrange(0, i as int), context@).push(
                        (validation_type, source@, targets@[i as int]@, context@)));
            }
            i = i + 1;
        }
        proof {
            assert(tv.subrange(0, tv.len() as int) =~= tv);
        }
    }
}

} // verus!
