//! Dependency collection and structural checks for criteria (CTN blocks).

use vstd::prelude::*;
use crate::strings::{concat2, concat3, concat4};
use crate::types::criterion::{CriterionDeclaration, criterion_var_refs, criterion_filter_refs, criterion_has_content};
use crate::types::state::{StateDeclaration, StateRef, state_var_refs};
use crate::types::object::{ObjectRef, elements_var_refs};
use crate::types::resolution_context::{ResolutionContext, ValidationType, deferrals, deferrals_to};
use crate::resolution::error::ResolutionError;

pub mod error;
pub mod tree;

pub use tree::extract_criteria_from_json;

verus! {

/// Whether the local states or local object of a criterion refer to variables.
pub fn has_variable_references_in_criterion(criterion: &CriterionDeclaration) -> (res: bool)
    ensures
        res == (criterion_var_refs(*criterion).len() > 0),
{
    let refs = criterion.get_variable_references();
    proof {
        assert(refs@.map_values(|r: String| r@).len() == refs@.len());
    }
    refs.len() > 0
}

/// The variables referenced by a criterion's local states and local object.
pub fn get_variable_references_from_criterion(criterion: &CriterionDeclaration) -> (res: Vec<String>)
    ensures
        res@.map_values(|r: String| r@) == criterion_var_refs(*criterion),
{
    criterion.get_variable_references()
}

/// The global states a criterion refers to, in order.
pub fn get_global_state_references_from_criterion(criterion: &CriterionDeclaration) -> (res: Vec<String>)
    ensures
        res@.map_values(|r: String| r@) == criterion.state_refs@.map_values(|r: StateRef| r.state_id@),
{
    criterion.get_global_state_refs()
}

/// The global objects a criterion refers to, in order.
pub fn get_global_object_references_from_criterion(criterion: &CriterionDeclaration) -> (res: Vec<String>)
    ensures
        res@.map_values(|r: String| r@) == criterion.object_refs@.map_values(|r: ObjectRef| r.object_id@),
{
    criterion.get_global_object_refs()
}

/// The states named by the filters of a criterion's local object.
pub fn get_filter_dependencies_from_criterion(criterion: &CriterionDeclaration) -> (res: Vec<String>)
    ensures
        res@.map_values(|r: String| r@) == criterion_filter_refs(*criterion),
{
    criterion.get_filter_dependencies()
}

/// Structural check of a criterion: a non-empty type and some content.
pub fn validate_criterion_structure(criterion: &CriterionDeclaration) -> (res: Result<(), ResolutionError>)
    ensures
        res is Ok <==> criterion.criterion_type@.len() > 0 && criterion_has_content(*criterion),
        res matches Err(e) ==> (e matches ResolutionError::InvalidInput { message }
            && message@ == "Criterion '"@ + criterion.criterion_type@ + "' structure validation failed: "@
                + (if criterion.criterion_type@.len() == 0 {
                    "Criterion type cannot be empty"@
                } else {
                    "CTN '"@ + criterion.criterion_type@
                        + "' has no content (state refs, object refs, or local elements required)"@
                })),
{
    match criterion.validate() {
        Err(msg) => {
            let mut message = concat3("Criterion '", criterion.criterion_type.as_str(), "' structure validation failed: ");
            message.append(msg.as_str());
            Err(ResolutionError::InvalidInput { message })
        },
        Ok(()) => Ok(()),
    }
}

/// The deferred validations for the variables of a list of local states.
pub open spec fn local_states_deferrals(s: Seq<StateDeclaration>, ctn: Seq<char>)
    -> Seq<(ValidationType, Seq<char>, Seq<char>, Seq<char>)>
    decreases s.len(),
{
    if s.len() == 0 {
        Seq::empty()
    } else {
        local_states_deferrals(s.drop_last(), ctn) + deferrals_to(ValidationType::VariableReference,
            "CTN:"@ + ctn + ":LocalState:"@ + s.last().identifier@, state_var_refs(s.last()),
            "Local state in CTN '"@ + ctn + "' depends on variable"@)
    }
}

/// The deferred validations that a criterion contributes: its global state
/// and object references, the variables of its local states and local
/// object, and the states of its filters.
pub open spec fn criterion_deferrals(c: CriterionDeclaration) -> Seq<(ValidationType, Seq<char>, Seq<char>, Seq<char>)> {
    let ctn = c.criterion_type@;
    deferrals_to(ValidationType::StateReference, "CTN:"@ + ctn,
        c.state_refs@.map_values(|r: StateRef| r.state_id@), "CTN '"@ + ctn + "' depends on global state"@)
    + deferrals_to(ValidationType::ObjectReference, "CTN:"@ + ctn,
        c.object_refs@.map_values(|r: ObjectRef| r.object_id@), "CTN '"@ + ctn + "' depends on global object"@)
    + local_states_deferrals(c.local_states@, ctn)
    + match c.local_object {
        Some(o) => deferrals_to(ValidationType::VariableReference, "CTN:"@ + ctn + ":LocalObject:"@ + o.identifier@,
            elements_var_refs(o.elements@), "Local object in CTN '"@ + ctn + "' depends on variable"@),
        None => Seq::empty(),
    }
    + deferrals_to(ValidationType::FilterStateReference, "CTN:"@ + ctn + ":FILTER"@,
        criterion_filter_refs(c), "CTN '"@ + ctn + "' filter depends on state"@)
}

/// Record the references of a criterion as deferred validations.
pub fn collect_criterion_dependencies(criterion: &CriterionDeclaration, context: &mut ResolutionContext)
    ensures
        deferrals(final(context).deferred_validations@)
            == deferrals(old(context).deferred_validations@) + criterion_deferrals(*criterion),
        *final(context) == (ResolutionContext { deferred_validations: final(context).deferred_validations, ..*old(context) }),
{
    let ghost d0 = deferrals(context.deferred_validations@);
    let ct = criterion.criterion_type.as_str();
    let source = concat2("CTN:", ct);
    let states = criterion.get_global_state_refs();
    let c1 = concat3("CTN '", ct, "' depends on global state");
    context.defer_all(ValidationType::StateReference, source.as_str(), &states, c1.as_str());
    let objects = criterion.get_global_object_refs();
    let c2 = concat3("CTN '", ct, "' depends on global object");
    context.defer_all(ValidationType::ObjectReference, source.as_str(), &objects, c2.as_str());
    let ghost d2 = deferrals(context.deferred_validations@);
    let c3 = concat3("Local state in CTN '", ct, "' depends on variable");
    let mut i: usize = 0;
    proof {
        assert(criterion.local_states@.subrange(0, 0) =~= Seq::<StateDeclaration>::empty());
        assert(d2 =~= d2 + local_states_deferrals(criterion.local_states@.subrange(0, 0), ct@));
    }
    while i < criterion.local_states.len()
        invariant
            i <= criterion.local_states@.len(),
            c3@ == "Local state in CTN '"@ + ct@ + "' depends on variable"@,
            ct@ == criterion.criterion_type@,
            deferrals(context.deferred_validations@) == d2
                + local_states_deferrals(criterion.local_states@.subrange(0, i as int), ct@),
            *context == (ResolutionContext { deferred_validations: context.deferred_validations, ..*old(context) }),
        decreases criterion.local_states@.len() - i,
    {
        proof {
            assert(criterion.local_states@.subrange(0, i + 1).drop_last() =~= criterion.local_states@.subrange(0, i as int));
            assert(criterion.local_states@.subrange(0, i + 1).last() == criterion.local_states@[i as int]);
        }
        let st = &criterion.local_states[i];
        let vars = st.get_variable_references();
        let src = concat4("CTN:", ct, ":LocalState:", st.identifier.as_str());
        context.defer_all(ValidationType::VariableReference, src.as_str(), &vars, c3.as_str());
        i = i + 1;
    }
    proof {
        assert(criterion.local_states@.subrange(0, criterion.local_states@.len() as int) =~= criterion.local_states@);
    }
    let ghost d3 = deferrals(context.deferred_validations@);
    match &criterion.local_object {
        Some(o) => {
            let vars = o.get_variable_references();
            let src = concat4("CTN:", ct, ":LocalObject:", o.identifier.as_str());
            let c4 = concat3("Local object in CTN '", ct, "' depends on variable");
            context.defer_all(ValidationType::VariableReference, src.as_str(), &vars, c4.as_str());
        },
        None => {
            proof {
                assert(d3 =~= d3 + Seq::<(ValidationType, Seq<char>, Seq<char>, Seq<char>)>::empty());
            }
        },
    }
    let filters = criterion.get_filter_dependencies();
    let src = concat3("CTN:", ct, ":FILTER");
    let c5 = concat3("CTN '", ct, "' filter depends on state");
    context.defer_all(ValidationType::FilterStateReference, src.as_str(), &filters, c5.as_str());
    proof {
        assert(deferrals(context.deferred_validations@) =~= d0 + criterion_deferrals(*criterion));
    }
}

} // verus!
