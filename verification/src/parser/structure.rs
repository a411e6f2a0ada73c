//! Structural validation of a parsed definition: empty names, duplicate
//! identifiers, missing content, self-references and reserved keywords.
//! References between symbols are not checked here; the dependency graph
//! does that later.

use vstd::prelude::*;
use crate::strings::{str_eq, to_owned_string, concat2, concat3, concat4, concat5, usize_to_string,
    decimal, join_sep, join_strings};
use crate::resolution::dag::{views, position_in};
use crate::types::common::Value;
use crate::types::variable::{VariableDeclaration, init_dependency};
use crate::types::state::StateDeclaration;
use crate::types::object::{ObjectDeclaration, ObjectElement};
use crate::types::set::{SetOperation, SetOperand, operand_count_ok, operand_count_message};
use crate::types::runtime_operation::{RuntimeOperation, RunParameter, params_ok, params_message};
use crate::types::criterion::{CriterionDeclaration, criterion_has_content};
use crate::types::criteria::forest_criteria;
use crate::types::resolution_context::ResolutionContext;

verus! {

/// The message `m` when `b` holds, no message otherwise.
pub open spec fn msg_if(b: bool, m: Seq<char>) -> Seq<Seq<char>> {
    if b { seq![m] } else { Seq::empty() }
}

/// The message for an identifier declared twice at global scope.
pub open spec fn duplicate_message(id: Seq<char>) -> Seq<char> {
    "Duplicate global identifier: '"@ + id + "'"@
}

/// The names of a list of variables.
pub open spec fn variable_names(s: Seq<VariableDeclaration>) -> Seq<Seq<char>> {
    s.map_values(|v: VariableDeclaration| v.name@)
}

/// The identifiers of a list of states.
pub open spec fn state_identifiers(s: Seq<StateDeclaration>) -> Seq<Seq<char>> {
    s.map_values(|d: StateDeclaration| d.identifier@)
}

/// The identifiers of a list of objects.
pub open spec fn object_identifiers(s: Seq<ObjectDeclaration>) -> Seq<Seq<char>> {
    s.map_values(|o: ObjectDeclaration| o.identifier@)
}

/// The identifiers of a list of SETs.
pub open spec fn set_identifiers(s: Seq<SetOperation>) -> Seq<Seq<char>> {
    s.map_values(|o: SetOperation| o.set_id@)
}

/// The target variables of a list of RUN operations.
pub open spec fn run_targets(s: Seq<RuntimeOperation>) -> Seq<Seq<char>> {
    s.map_values(|r: RuntimeOperation| r.target_variable@)
}

/// The problems of one variable, given the global identifiers declared before it.
pub open spec fn variable_problems(v: VariableDeclaration, seen: Seq<Seq<char>>) -> Seq<Seq<char>> {
    msg_if(v.name@.len() == 0, "Variable with empty name found"@)
    + msg_if(seen.contains(v.name@), duplicate_message(v.name@))
    + msg_if(init_dependency(v) == Some(v.name@), "Variable '"@ + v.name@ + "' references itself"@)
}

/// The problems of a list of variables, given the global identifiers declared before them.
pub open spec fn variables_problems(s: Seq<VariableDeclaration>, before: Seq<Seq<char>>) -> Seq<Seq<char>>
    decreases s.len(),
{
    if s.len() == 0 {
        Seq::empty()
    } else {
        variables_problems(s.drop_last(), before)
            + variable_problems(s.last(), before + variable_names(s.drop_last()))
    }
}

/// The problems of one global state, given the global identifiers declared before it.
pub open spec fn state_problems(s: StateDeclaration, seen: Seq<Seq<char>>) -> Seq<Seq<char>> {
    msg_if(s.identifier@.len() == 0, "State with empty identifier found"@)
    + msg_if(seen.contains(s.identifier@), duplicate_message(s.identifier@))
    + msg_if(s.fields@.len() == 0 && s.record_checks@.len() == 0,
        "State '"@ + s.identifier@ + "' has no fields or record checks"@)
}

/// The problems of a list of global states, given the global identifiers declared before them.
pub open spec fn states_problems(s: Seq<StateDeclaration>, before: Seq<Seq<char>>) -> Seq<Seq<char>>
    decreases s.len(),
{
    if s.len() == 0 {
        Seq::empty()
    } else {
        states_problems(s.drop_last(), before)
            + state_problems(s.last(), before + state_identifiers(s.drop_last()))
    }
}

/// The names of the field elements of a list, in order.
pub open spec fn field_names(s: Seq<ObjectElement>) -> Seq<Seq<char>>
    decreases s.len(),
{
    if s.len() == 0 {
        Seq::empty()
    } else {
        field_names(s.drop_last()) + match s.last() {
            ObjectElement::Field { name, .. } => seq![name@],
            _ => Seq::empty(),
        }
    }
}

/// One message per field element of the object `id` whose name an earlier
/// field already has.
pub open spec fn field_duplicate_problems(id: Seq<char>, s: Seq<ObjectElement>) -> Seq<Seq<char>>
    decreases s.len(),
{
    if s.len() == 0 {
        Seq::empty()
    } else {
        field_duplicate_problems(id, s.drop_last()) + match s.last() {
            ObjectElement::Field { name, .. } => msg_if(field_names(s.drop_last()).contains(name@),
                "Object '"@ + id + "' has duplicate field name '"@ + name@ + "'"@),
            _ => Seq::empty(),
        }
    }
}

/// The problems of one global object, given the global identifiers declared before it.
pub open spec fn object_problems(o: ObjectDeclaration, seen: Seq<Seq<char>>) -> Seq<Seq<char>> {
    msg_if(o.identifier@.len() == 0, "Object with empty identifier found"@)
    + msg_if(seen.contains(o.identifier@), duplicate_message(o.identifier@))
    + msg_if(o.elements@.len() == 0, "Object '"@ + o.identifier@ + "' has no elements"@)
    + field_duplicate_problems(o.identifier@, o.elements@)
}

/// The problems of a list of global objects, given the global identifiers declared before them.
pub open spec fn objects_problems(s: Seq<ObjectDeclaration>, before: Seq<Seq<char>>) -> Seq<Seq<char>>
    decreases s.len(),
{
    if s.len() == 0 {
        Seq::empty()
    } else {
        objects_problems(s.drop_last(), before)
            + object_problems(s.last(), before + object_identifiers(s.drop_last()))
    }
}

/// One message per operand of the SET `id` that refers to that SET.
pub open spec fn set_self_references(id: Seq<char>, s: Seq<SetOperand>) -> Seq<Seq<char>>
    decreases s.len(),
{
    if s.len() == 0 {
        Seq::empty()
    } else {
        set_self_references(id, s.drop_last()) + match s.last() {
            SetOperand::SetRef(r) => msg_if(r@ == id, "Set operation '"@ + id + "' references itself"@),
            _ => Seq::empty(),
        }
    }
}

/// The problems of one SET, given the global identifiers declared before it.
pub open spec fn set_problems(op: SetOperation, seen: Seq<Seq<char>>) -> Seq<Seq<char>> {
    msg_if(op.set_id@.len() == 0, "Set operation with empty ID found"@)
    + msg_if(seen.contains(op.set_id@), duplicate_message(op.set_id@))
    + msg_if(!operand_count_ok(op.operation, op.operands@.len()),
        "Set operation '"@ + op.set_id@ + "' structural validation failed: "@
            + operand_count_message(op.operation, op.operands@.len()))
    + set_self_references(op.set_id@, op.operands@)
}

/// The problems of a list of SETs, given the global identifiers declared before them.
pub open spec fn sets_problems(s: Seq<SetOperation>, before: Seq<Seq<char>>) -> Seq<Seq<char>>
    decreases s.len(),
{
    if s.len() == 0 {
        Seq::empty()
    } else {
        sets_problems(s.drop_last(), before)
            + set_problems(s.last(), before + set_identifiers(s.drop_last()))
    }
}

/// One message per variable parameter of the RUN operation `target` that
/// names its own target.
pub open spec fn param_self_references(target: Seq<char>, s: Seq<RunParameter>) -> Seq<Seq<char>>
    decreases s.len(),
{
    if s.len() == 0 {
        Seq::empty()
    } else {
        param_self_references(target, s.drop_last()) + match s.last() {
            RunParameter::Variable(v) => msg_if(v@ == target,
                "Runtime operation '"@ + target + "' references itself in parameters"@),
            _ => Seq::empty(),
        }
    }
}

/// The problems of one RUN operation, given the global identifiers declared before it.
pub open spec fn runtime_problems(r: RuntimeOperation, seen: Seq<Seq<char>>) -> Seq<Seq<char>> {
    msg_if(r.target_variable@.len() == 0, "Runtime operation with empty target variable found"@)
    + msg_if(seen.contains(r.target_variable@), duplicate_message(r.target_variable@))
    + msg_if(!params_ok(r.operation_type, r.parameters@),
        "Runtime operation '"@ + r.target_variable@ + "' structural validation failed: "@
            + params_message(r.operation_type, r.target_variable@))
    + param_self_references(r.target_variable@, r.parameters@)
}

/// The problems of a list of RUN operations, given the global identifiers declared before them.
pub open spec fn runtimes_problems(s: Seq<RuntimeOperation>, before: Seq<Seq<char>>) -> Seq<Seq<char>>
    decreases s.len(),
{
    if s.len() == 0 {
        Seq::empty()
    } else {
        runtimes_problems(s.drop_last(), before)
            + runtime_problems(s.last(), before + run_targets(s.drop_last()))
    }
}

/// The problems of one criterion.
pub open spec fn criterion_problems(c: CriterionDeclaration) -> Seq<Seq<char>> {
    msg_if(c.criterion_type@.len() == 0, "Criterion with empty type found"@)
    + msg_if(c.ctn_node_id is None, "Criterion '"@ + c.criterion_type@ + "' missing CTN node ID"@)
    + msg_if(!criterion_has_content(c), "Criterion '"@ + c.criterion_type@
        + "' has no content (state refs, object refs, or local elements required)"@)
}

/// The problems of a list of criteria.
pub open spec fn criteria_problems(s: Seq<CriterionDeclaration>) -> Seq<Seq<char>>
    decreases s.len(),
{
    if s.len() == 0 {
        Seq::empty()
    } else {
        criteria_problems(s.drop_last()) + criterion_problems(s.last())
    }
}

/// The problems of one local state of the criterion `ctn`, given the
/// identifiers of the local states ahead of it.
pub open spec fn local_state_problems(ctn: usize, s: StateDeclaration, seen: Seq<Seq<char>>) -> Seq<Seq<char>> {
    msg_if(s.identifier@.len() == 0, "Local state with empty identifier in CTN "@ + decimal(ctn as nat))
    + msg_if(seen.contains(s.identifier@),
        "Duplicate local identifier '"@ + s.identifier@ + "' in CTN "@ + decimal(ctn as nat))
    + msg_if(s.fields@.len() == 0 && s.record_checks@.len() == 0,
        "Local state '"@ + s.identifier@ + "' in CTN "@ + decimal(ctn as nat) + " has no fields"@)
}

/// The problems of the local states of the criterion `ctn`.
pub open spec fn ctn_states_problems(ctn: usize, s: Seq<StateDeclaration>) -> Seq<Seq<char>>
    decreases s.len(),
{
    if s.len() == 0 {
        Seq::empty()
    } else {
        ctn_states_problems(ctn, s.drop_last())
            + local_state_problems(ctn, s.last(), state_identifiers(s.drop_last()))
    }
}

/// The problems of the local states of each criterion in turn.
pub open spec fn local_states_problems(s: Seq<(usize, Vec<StateDeclaration>)>) -> Seq<Seq<char>>
    decreases s.len(),
{
    if s.len() == 0 {
        Seq::empty()
    } else {
        local_states_problems(s.drop_last()) + ctn_states_problems(s.last().0, s.last().1@)
    }
}

/// The problems of the local object of the criterion `ctn`.
pub open spec fn local_object_problems(ctn: usize, o: ObjectDeclaration) -> Seq<Seq<char>> {
    msg_if(o.identifier@.len() == 0, "Local object with empty identifier in CTN "@ + decimal(ctn as nat))
    + msg_if(o.elements@.len() == 0,
        "Local object '"@ + o.identifier@ + "' in CTN "@ + decimal(ctn as nat) + " has no elements"@)
}

/// The problems of the local object of each criterion in turn.
pub open spec fn local_objects_problems(s: Seq<(usize, ObjectDeclaration)>) -> Seq<Seq<char>>
    decreases s.len(),
{
    if s.len() == 0 {
        Seq::empty()
    } else {
        local_objects_problems(s.drop_last()) + local_object_problems(s.last().0, s.last().1)
    }
}

/// The words of the language that cannot name a symbol.
pub open spec fn is_reserved_keyword(s: Seq<char>) -> bool {
    ||| s == "DEF"@ ||| s == "VAR"@ ||| s == "STATE"@ ||| s == "OBJECT"@ ||| s == "CTN"@
    ||| s == "CRI"@ ||| s == "SET"@ ||| s == "RUN"@ ||| s == "TEST"@ ||| s == "FILTER"@
    ||| s == "META"@ ||| s == "DEF_END"@ ||| s == "STATE_END"@ ||| s == "OBJECT_END"@
    ||| s == "CTN_END"@ ||| s == "CRI_END"@ ||| s == "SET_END"@ ||| s == "RUN_END"@
    ||| s == "FILTER_END"@ ||| s == "META_END"@ ||| s == "STATE_REF"@ ||| s == "OBJECT_REF"@
    ||| s == "SET_REF"@ ||| s == "AND"@ ||| s == "OR"@ ||| s == "true"@ ||| s == "false"@
}

/// One message per distinct reserved keyword among `ids`, at its first occurrence.
pub open spec fn reserved_problems(ids: Seq<Seq<char>>) -> Seq<Seq<char>>
    decreases ids.len(),
{
    if ids.len() == 0 {
        Seq::empty()
    } else {
        reserved_problems(ids.drop_last()) + msg_if(
            !ids.drop_last().contains(ids.last()) && is_reserved_keyword(ids.last()),
            "Reserved keyword '"@ + ids.last() + "' used as identifier"@,
        )
    }
}

/// The global identifiers of a context in declaration order: variables,
/// states, objects, SETs, then RUN targets.
pub open spec fn global_identifiers(c: ResolutionContext) -> Seq<Seq<char>> {
    variable_names(c.variables@) + state_identifiers(c.global_states@)
        + object_identifiers(c.global_objects@) + set_identifiers(c.set_operations@)
        + run_targets(c.runtime_operations@)
}

/// Every structural problem of a context, in the order in which they are reported.
pub open spec fn structure_problems(c: ResolutionContext) -> Seq<Seq<char>> {
    let ids1 = variable_names(c.variables@);
    let ids2 = ids1 + state_identifiers(c.global_states@);
    let ids3 = ids2 + object_identifiers(c.global_objects@);
    let ids4 = ids3 + set_identifiers(c.set_operations@);
    variables_problems(c.variables@, Seq::empty())
    + states_problems(c.global_states@, ids1)
    + objects_problems(c.global_objects@, ids2)
    + sets_problems(c.set_operations@, ids3)
    + runtimes_problems(c.runtime_operations@, ids4)
    + criteria_problems(forest_criteria(c.criteria_root.trees@))
    + local_states_problems(c.ctn_local_states.entries@)
    + local_objects_problems(c.ctn_local_objects.entries@)
    + reserved_problems(global_identifiers(c))
}

/// Append `m` to `errors` when `cond` holds.
fn push_when(errors: &mut Vec<String>, cond: bool, m: String)
    ensures
        views(final(errors)@) == views(old(errors)@) + msg_if(cond, m@),
{
    let ghost e0 = views(errors@);
    if cond {
        errors.push(m);
        proof {
            assert(views(errors@) =~= e0 + msg_if(cond, m@));
        }
    } else {
        proof {
            assert(views(errors@) =~= e0 + msg_if(cond, m@));
        }
    }
}

/// Whether `x` occurs in `v`.
fn contains_string(v: &Vec<String>, x: &str) -> (res: bool)
    ensures
        res == views(v@).contains(x@),
{
    match position_in(v, x) {
        Some(i) => {
            proof {
                assert(views(v@)[i as int] == x@);
            }
            true
        },
        None => false,
    }
}

/// Append `s` to the identifiers `ids`.
fn push_id(ids: &mut Vec<String>, s: &String)
    ensures
        views(final(ids)@) == views(old(ids)@).push(s@),
{
    let ghost i0 = views(ids@);
    ids.push(s.clone());
    proof {
        assert(views(ids@) =~= i0.push(s@));
    }
}

/// Report the problems of the variables, given the global identifiers `ids`
/// declared before them, and add their names to `ids`.
fn check_variables(vars: &Vec<VariableDeclaration>, ids: &mut Vec<String>, errors: &mut Vec<String>)
    ensures
        views(final(errors)@) == views(old(errors)@) + variables_problems(vars@, views(old(ids)@)),
        views(final(ids)@) == views(old(ids)@) + variable_names(vars@),
{
    let ghost before = views(ids@);
    let ghost e0 = views(errors@);
    let mut i: usize = 0;
    while i < vars.len()
        invariant
            i <= vars@.len(),
            views(ids@) == before + variable_names(vars@.subrange(0, i as int)),
            views(errors@) == e0 + variables_problems(vars@.subrange(0, i as int), before),
        decreases vars@.len() - i,
    {
        let v = &vars[i];
        let ghost seen = views(ids@);
        let ghost eb = views(errors@);
        let name = v.name.as_str();
        push_when(errors, name.is_empty(), to_owned_string("Variable with empty name found"));
        let dup = contains_string(ids, name);
        push_when(errors, dup, concat3("Duplicate global identifier: '", name, "'"));
        let self_ref = match &v.initial_value {
            Some(Value::Variable(r)) => str_eq(r.as_str(), name),
            _ => false,
        };
        push_when(errors, self_ref, concat3("Variable '", name, "' references itself"));
        push_id(ids, &v.name);
        proof {
            let sub = vars@.subrange(0, i + 1);
            assert(sub.drop_last() =~= vars@.subrange(0, i as int));
            assert(sub.last() == *v);
            assert(self_ref == (init_dependency(*v) == Some(v.name@)));
            assert(views(errors@) =~= eb + variable_problems(*v, seen));
            assert(variable_names(sub) =~= variable_names(vars@.subrange(0, i as int)).push(v.name@));
        }
        i = i + 1;
    }
    proof {
        assert(vars@.subrange(0, vars@.len() as int) =~= vars@);
    }
}

/// Report the problems of the global states, given the global identifiers
/// `ids` declared before them, and add their identifiers to `ids`.
fn check_states(states: &Vec<StateDeclaration>, ids: &mut Vec<String>, errors: &mut Vec<String>)
    ensures
        views(final(errors)@) == views(old(errors)@) + states_problems(states@, views(old(ids)@)),
        views(final(ids)@) == views(old(ids)@) + state_identifiers(states@),
{
    let ghost before = views(ids@);
    let ghost e0 = views(errors@);
    let mut i: usize = 0;
    while i < states.len()
        invariant
            i <= states@.len(),
            views(ids@) == before + state_identifiers(states@.subrange(0, i as int)),
            views(errors@) == e0 + states_problems(states@.subrange(0, i as int), before),
        decreases states@.len() - i,
    {
        let st = &states[i];
        let ghost seen = views(ids@);
        let ghost eb = views(errors@);
        let id = st.identifier.as_str();
        push_when(errors, id.is_empty(), to_owned_string("State with empty identifier found"));
        let dup = contains_string(ids, id);
        push_when(errors, dup, concat3("Duplicate global identifier: '", id, "'"));
        let bare = st.fields.len() == 0 && st.record_checks.len() == 0;
        push_when(errors, bare, concat3("State '", id, "' has no fields or record checks"));
        push_id(ids, &st.identifier);
        proof {
            let sub = states@.subrange(0, i + 1);
            assert(sub.drop_last() =~= states@.subrange(0, i as int));
            assert(sub.last() == *st);
            assert(views(errors@) =~= eb + state_problems(*st, seen));
            assert(state_identifiers(sub) =~= state_identifiers(states@.subrange(0, i as int)).push(st.identifier@));
        }
        i = i + 1;
    }
    proof {
        assert(states@.subrange(0, states@.len() as int) =~= states@);
    }
}

/// Report the field elements of the object `id` whose name an earlier field already has.
fn check_field_duplicates(id: &str, elements: &Vec<ObjectElement>, errors: &mut Vec<String>)
    ensures
        views(final(errors)@) == views(old(errors)@) + field_duplicate_problems(id@, elements@),
{
    let ghost e0 = views(errors@);
    let mut names: Vec<String> = Vec::new();
    let mut i: usize = 0;
    while i < elements.len()
        invariant
            i <= elements@.len(),
            views(names@) == field_names(elements@.subrange(0, i as int)),
            views(errors@) == e0 + field_duplicate_problems(id@, elements@.subrange(0, i as int)),
        decreases elements@.len() - i,
    {
        let ghost eb = views(errors@);
        let ghost seen = views(names@);
        proof {
            let sub = elements@.subrange(0, i + 1);
            assert(sub.drop_last() =~= elements@.subrange(0, i as int));
            assert(sub.last() == elements@[i as int]);
        }
        match &elements[i] {
            ObjectElement::Field { name, .. } => {
                let dup = contains_string(&names, name.as_str());
                push_when(errors, dup, concat5("Object '", id, "' has duplicate field name '", name.as_str(), "'"));
                push_id(&mut names, name);
            },
            _ => {},
        }
        i = i + 1;
    }
    proof {
        assert(elements@.subrange(0, elements@.len() as int) =~= elements@);
    }
}

/// Report the problems of the global objects, given the global identifiers
/// `ids` declared before them, and add their identifiers to `ids`.
fn check_objects(objects: &Vec<ObjectDeclaration>, ids: &mut Vec<String>, errors: &mut Vec<String>)
    ensures
        views(final(errors)@) == views(old(errors)@) + objects_problems(objects@, views(old(ids)@)),
        views(final(ids)@) == views(old(ids)@) + object_identifiers(objects@),
{
    let ghost before = views(ids@);
    let ghost e0 = views(errors@);
    let mut i: usize = 0;
    while i < objects.len()
        invariant
            i <= objects@.len(),
            views(ids@) == before + object_identifiers(objects@.subrange(0, i as int)),
            views(errors@) == e0 + objects_problems(objects@.subrange(0, i as int), before),
        decreases objects@.len() - i,
    {
        let o = &objects[i];
        let ghost seen = views(ids@);
        let ghost eb = views(errors@);
        let id = o.identifier.as_str();
        push_when(errors, id.is_empty(), to_owned_string("Object with empty identifier found"));
        let dup = contains_string(ids, id);
        push_when(errors, dup, concat3("Duplicate global identifier: '", id, "'"));
        push_when(errors, o.elements.len() == 0, concat3("Object '", id, "' has no elements"));
        let ghost em = views(errors@);
        check_field_duplicates(id, &o.elements, errors);
        push_id(ids, &o.identifier);
        proof {
            let sub = objects@.subrange(0, i + 1);
            assert(sub.drop_last() =~= objects@.subrange(0, i as int));
            assert(sub.last() == *o);
            assert(views(errors@) =~= eb + object_problems(*o, seen));
            assert(object_identifiers(sub) =~= object_identifiers(objects@.subrange(0, i as int)).push(o.identifier@));
        }
        i = i + 1;
    }
    proof {
        assert(objects@.subrange(0, objects@.len() as int) =~= objects@);
    }
}

/// Report the operands of the SET `id` that refer to that SET.
fn check_set_self_references(id: &str, operands: &Vec<SetOperand>, errors: &mut Vec<String>)
    ensures
        views(final(errors)@) == views(old(errors)@) + set_self_references(id@, operands@),
{
    let ghost e0 = views(errors@);
    let mut i: usize = 0;
    while i < operands.len()
        invariant
            i <= operands@.len(),
            views(errors@) == e0 + set_self_references(id@, operands@.subrange(0, i as int)),
        decreases operands@.len() - i,
    {
        proof {
            let sub = operands@.subrange(0, i + 1);
            assert(sub.drop_last() =~= operands@.subrange(0, i as int));
            assert(sub.last() == operands@[i as int]);
        }
        match &operands[i] {
            SetOperand::SetRef(r) => {
                push_when(errors, str_eq(r.as_str(), id), concat3("Set operation '", id, "' references itself"));
            },
            _ => {},
        }
        i = i + 1;
    }
    proof {
        assert(operands@.subrange(0, operands@.len() as int) =~= operands@);
    }
}

/// Report the problems of the SETs, given the global identifiers `ids`
/// declared before them, and add their identifiers to `ids`.
fn check_sets(sets: &Vec<SetOperation>, ids: &mut Vec<String>, errors: &mut Vec<String>)
    ensures
        views(final(errors)@) == views(old(errors)@) + sets_problems(sets@, views(old(ids)@)),
        views(final(ids)@) == views(old(ids)@) + set_identifiers(sets@),
{
    let ghost before = views(ids@);
    let ghost e0 = views(errors@);
    let mut i: usize = 0;
    while i < sets.len()
        invariant
            i <= sets@.len(),
            views(ids@) == before + set_identifiers(sets@.subrange(0, i as int)),
            views(errors@) == e0 + sets_problems(sets@.subrange(0, i as int), before),
        decreases sets@.len() - i,
    {
        let op = &sets[i];
        let ghost seen = views(ids@);
        let ghost eb = views(errors@);
        let id = op.set_id.as_str();
        push_when(errors, id.is_empty(), to_owned_string("Set operation with empty ID found"));
        let dup = contains_string(ids, id);
        push_when(errors, dup, concat3("Duplicate global identifier: '", id, "'"));
        let ghost ev = views(errors@);
        match op.validate() {
            Ok(()) => {},
            Err(e) => {
                push_when(errors, true, concat4("Set operation '", id, "' structural validation failed: ", e.as_str()));
            },
        }
        check_set_self_references(id, &op.operands, errors);
        push_id(ids, &op.set_id);
        proof {
            let sub = sets@.subrange(0, i + 1);
            assert(sub.drop_last() =~= sets@.subrange(0, i as int));
            assert(sub.last() == *op);
            assert(views(errors@) =~= eb + set_problems(*op, seen));
            assert(set_identifiers(sub) =~= set_identifiers(sets@.subrange(0, i as int)).push(op.set_id@));
        }
        i = i + 1;
    }
    proof {
        assert(sets@.subrange(0, sets@.len() as int) =~= sets@);
    }
}

/// Report the variable parameters of the RUN operation `target` that name its own target.
fn check_param_self_references(target: &str, params: &Vec<RunParameter>, errors: &mut Vec<String>)
    ensures
        views(final(errors)@) == views(old(errors)@) + param_self_references(target@, params@),
{
    let ghost e0 = views(errors@);
    let mut i: usize = 0;
    while i < params.len()
        invariant
            i <= params@.len(),
            views(errors@) == e0 + param_self_references(target@, params@.subrange(0, i as int)),
        decreases params@.len() - i,
    {
        proof {
            let sub = params@.subrange(0, i + 1);
            assert(sub.drop_last() =~= params@.subrange(0, i as int));
            assert(sub.last() == params@[i as int]);
        }
        match &params[i] {
            RunParameter::Variable(v) => {
                push_when(errors, str_eq(v.as_str(), target),
                    concat3("Runtime operation '", target, "' references itself in parameters"));
            },
            _ => {},
        }
        i = i + 1;
    }
    proof {
        assert(params@.subrange(0, params@.len() as int) =~= params@);
    }
}

/// Report the problems of the RUN operations, given the global identifiers
/// `ids` declared before them, and add their targets to `ids`.
fn check_runtime_operations(runs: &Vec<RuntimeOperation>, ids: &mut Vec<String>, errors: &mut Vec<String>)
    ensures
        views(final(errors)@) == views(old(errors)@) + runtimes_problems(runs@, views(old(ids)@)),
        views(final(ids)@) == views(old(ids)@) + run_targets(runs@),
{
    let ghost before = views(ids@);
    let ghost e0 = views(errors@);
    let mut i: usize = 0;
    while i < runs.len()
        invariant
            i <= runs@.len(),
            views(ids@) == before + run_targets(runs@.subrange(0, i as int)),
            views(errors@) == e0 + runtimes_problems(runs@.subrange(0, i as int), before),
        decreases runs@.len() - i,
    {
        let r = &runs[i];
        let ghost seen = views(ids@);
        let ghost eb = views(errors@);
        let t = r.target_variable.as_str();
        push_when(errors, t.is_empty(), to_owned_string("Runtime operation with empty target variable found"));
        let dup = contains_string(ids, t);
        push_when(errors, dup, concat3("Duplicate global identifier: '", t, "'"));
        match r.validate() {
            Ok(()) => {},
            Err(e) => {
                push_when(errors, true, concat4("Runtime operation '", t, "' structural validation failed: ", e.as_str()));
            },
        }
        check_param_self_references(t, &r.parameters, errors);
        push_id(ids, &r.target_variable);
        proof {
            let sub = runs@.subrange(0, i + 1);
            assert(sub.drop_last() =~= runs@.subrange(0, i as int));
            assert(sub.last() == *r);
            assert(views(errors@) =~= eb + runtime_problems(*r, seen));
            assert(run_targets(sub) =~= run_targets(runs@.subrange(0, i as int)).push(r.target_variable@));
        }
        i = i + 1;
    }
    proof {
        assert(runs@.subrange(0, runs@.len() as int) =~= runs@);
    }
}

/// Report the problems of the criteria.
fn check_criteria(criteria: &Vec<&CriterionDeclaration>, errors: &mut Vec<String>)
    ensures
        views(final(errors)@) == views(old(errors)@)
            + criteria_problems(criteria@.map_values(|c: &CriterionDeclaration| *c)),
{
    let ghost e0 = views(errors@);
    let ghost cs = criteria@.map_values(|c: &CriterionDeclaration| *c);
    let mut i: usize = 0;
    while i < criteria.len()
        invariant
            i <= criteria@.len(),
            cs == criteria@.map_values(|c: &CriterionDeclaration| *c),
            views(errors@) == e0 + criteria_problems(cs.subrange(0, i as int)),
        decreases criteria@.len() - i,
    {
        let c: &CriterionDeclaration = criteria[i];
        let ghost eb = views(errors@);
        let t = c.criterion_type.as_str();
        push_when(errors, t.is_empty(), to_owned_string("Criterion with empty type found"));
        push_when(errors, c.ctn_node_id.is_none(), concat3("Criterion '", t, "' missing CTN node ID"));
        let content = c.state_refs.len() > 0 || c.object_refs.len() > 0 || c.local_states.len() > 0
            || c.local_object.is_some();
        push_when(errors, !content, concat3("Criterion '", t,
            "' has no content (state refs, object refs, or local elements required)"));
        proof {
            let sub = cs.subrange(0, i + 1);
            assert(sub.drop_last() =~= cs.subrange(0, i as int));
            assert(sub.last() == *c);
            assert(views(errors@) =~= eb + criterion_problems(*c));
        }
        i = i + 1;
    }
    proof {
        assert(cs.subrange(0, cs.len() as int) =~= cs);
    }
}

/// Report the problems of the local states of the criterion `ctn`.
fn check_ctn_states(ctn: usize, states: &Vec<StateDeclaration>, errors: &mut Vec<String>)
    ensures
        views(final(errors)@) == views(old(errors)@) + ctn_states_problems(ctn, states@),
{
    let ghost e0 = views(errors@);
    let ctn_text = usize_to_string(ctn);
    let n = ctn_text.as_str();
    let mut ids: Vec<String> = Vec::new();
    let mut i: usize = 0;
    while i < states.len()
        invariant
            i <= states@.len(),
            n@ == decimal(ctn as nat),
            views(ids@) == state_identifiers(states@.subrange(0, i as int)),
            views(errors@) == e0 + ctn_states_problems(ctn, states@.subrange(0, i as int)),
        decreases states@.len() - i,
    {
        let st = &states[i];
        let ghost seen = views(ids@);
        let ghost eb = views(errors@);
        let id = st.identifier.as_str();
        push_when(errors, id.is_empty(), concat2("Local state with empty identifier in CTN ", n));
        let dup = contains_string(&ids, id);
        push_when(errors, dup, concat4("Duplicate local identifier '", id, "' in CTN ", n));
        let bare = st.fields.len() == 0 && st.record_checks.len() == 0;
        push_when(errors, bare, concat5("Local state '", id, "' in CTN ", n, " has no fields"));
        push_id(&mut ids, &st.identifier);
        proof {
            let sub = states@.subrange(0, i + 1);
            assert(sub.drop_last() =~= states@.subrange(0, i as int));
            assert(sub.last() == *st);
            assert(views(errors@) =~= eb + local_state_problems(ctn, *st, seen));
            assert(state_identifiers(sub) =~= state_identifiers(states@.subrange(0, i as int)).push(st.identifier@));
        }
        i = i + 1;
    }
    proof {
        assert(states@.subrange(0, states@.len() as int) =~= states@);
    }
}

/// Report the problems of the local states of each criterion in turn.
fn check_local_states(entries: &Vec<(usize, Vec<StateDeclaration>)>, errors: &mut Vec<String>)
    ensures
        views(final(errors)@) == views(old(errors)@) + local_states_problems(entries@),
{
    let ghost e0 = views(errors@);
    let mut i: usize = 0;
    while i < entries.len()
        invariant
            i <= entries@.len(),
            views(errors@) == e0 + local_states_problems(entries@.subrange(0, i as int)),
        decreases entries@.len() - i,
    {
        let ghost eb = views(errors@);
        let e = &entries[i];
        check_ctn_states(e.0, &e.1, errors);
        proof {
            let sub = entries@.subrange(0, i + 1);
            assert(sub.drop_last() =~= entries@.subrange(0, i as int));
            assert(sub.last() == *e);
            assert(views(errors@) =~= eb + ctn_states_problems(e.0, e.1@));
        }
        i = i + 1;
    }
    proof {
        assert(entries@.subrange(0, entries@.len() as int) =~= entries@);
    }
}

/// Report the problems of the local object of each criterion in turn.
fn check_local_objects(entries: &Vec<(usize, ObjectDeclaration)>, errors: &mut Vec<String>)
    ensures
        views(final(errors)@) == views(old(errors)@) + local_objects_problems(entries@),
{
    let ghost e0 = views(errors@);
    let mut i: usize = 0;
    while i < entries.len()
        invariant
            i <= entries@.len(),
            views(errors@) == e0 + local_objects_problems(entries@.subrange(0, i as int)),
        decreases entries@.len() - i,
    {
        let ghost eb = views(errors@);
        let e = &entries[i];
        let ctn_text = usize_to_string(e.0);
        let n = ctn_text.as_str();
        let id = e.1.identifier.as_str();
        push_when(errors, id.is_empty(), concat2("Local object with empty identifier in CTN ", n));
        push_when(errors, e.1.elements.len() == 0, concat5("Local object '", id, "' in CTN ", n, " has no elements"));
        proof {
            let sub = entries@.subrange(0, i + 1);
            assert(sub.drop_last() =~= entries@.subrange(0, i as int));
            assert(sub.last() == *e);
            assert(views(errors@) =~= eb + local_object_problems(e.0, e.1));
        }
        i = i + 1;
    }
    proof {
        assert(entries@.subrange(0, entries@.len() as int) =~= entries@);
    }
}

/// Whether `s` is a reserved keyword of the language.
pub fn is_reserved(s: &str) -> (res: bool)
    ensures
        res == is_reserved_keyword(s@),
{
    str_eq(s, "DEF") || str_eq(s, "VAR") || str_eq(s, "STATE") || str_eq(s, "OBJECT")
        || str_eq(s, "CTN") || str_eq(s, "CRI") || str_eq(s, "SET") || str_eq(s, "RUN")
        || str_eq(s, "TEST") || str_eq(s, "FILTER") || str_eq(s, "META") || str_eq(s, "DEF_END")
        || str_eq(s, "STATE_END") || str_eq(s, "OBJECT_END") || str_eq(s, "CTN_END")
        || str_eq(s, "CRI_END") || str_eq(s, "SET_END") || str_eq(s, "RUN_END")
        || str_eq(s, "FILTER_END") || str_eq(s, "META_END") || str_eq(s, "STATE_REF")
        || str_eq(s, "OBJECT_REF") || str_eq(s, "SET_REF") || str_eq(s, "AND") || str_eq(s, "OR")
        || str_eq(s, "true") || str_eq(s, "false")
}

/// Report each distinct reserved keyword among `ids`, at its first occurrence.
fn check_reserved(ids: &Vec<String>, errors: &mut Vec<String>)
    ensures
        views(final(errors)@) == views(old(errors)@) + reserved_problems(views(ids@)),
{
    let ghost e0 = views(errors@);
    let ghost all = views(ids@);
    let mut earlier: Vec<String> = Vec::new();
    let mut k: usize = 0;
    while k < ids.len()
        invariant
            k <= ids@.len(),
            all == views(ids@),
            views(earlier@) == all.subrange(0, k as int),
            views(errors@) == e0 + reserved_problems(all.subrange(0, k as int)),
        decreases ids@.len() - k,
    {
        let x = ids[k].as_str();
        let seen_before = contains_string(&earlier, x);
        let reserved = is_reserved(x);
        push_when(errors, !seen_before && reserved, concat3("Reserved keyword '", x, "' used as identifier"));
        push_id(&mut earlier, &ids[k]);
        proof {
            let sub = all.subrange(0, k + 1);
            assert(sub.drop_last() =~= all.subrange(0, k as int));
            assert(sub.last() == x@);
            assert(all.subrange(0, k + 1) =~= all.subrange(0, k as int).push(x@));
        }
        k = k + 1;
    }
    proof {
        assert(all.subrange(0, all.len() as int) =~= all);
    }
}

impl ResolutionContext {
    /// Structural validation of a parsed definition, without following
    /// references: empty names, duplicate identifiers, elements without
    /// content, self-references and reserved keywords. `Ok` exactly when
    /// nothing is found; otherwise every problem, in order, joined by "; ".
    pub fn validate_structure_only(context: &ResolutionContext) -> (res: Result<(), String>)
        ensures
            match res {
                Ok(()) => structure_problems(*context).len() == 0,
                Err(msg) => structure_problems(*context).len() > 0
                    && msg@ == join_sep(structure_problems(*context), "; "@),
            },
    {
        let mut errors: Vec<String> = Vec::new();
        let mut ids: Vec<String> = Vec::new();
        let ghost c = *context;
        let ghost ids1 = variable_names(c.variables@);
        let ghost ids2 = ids1 + state_identifiers(c.global_states@);
        let ghost ids3 = ids2 + object_identifiers(c.global_objects@);
        let ghost ids4 = ids3 + set_identifiers(c.set_operations@);
        proof {
            assert(views(ids@) =~= Seq::<Seq<char>>::empty());
            assert(views(errors@) =~= Seq::<Seq<char>>::empty());
        }
        check_variables(&context.variables, &mut ids, &mut errors);
        proof {
            assert(views(ids@) =~= ids1);
        }
        let ghost m1 = views(errors@);
        check_states(&context.global_states, &mut ids, &mut errors);
        let ghost m2 = views(errors@);
        check_objects(&context.global_objects, &mut ids, &mut errors);
        let ghost m3 = views(errors@);
        check_sets(&context.set_operations, &mut ids, &mut errors);
        let ghost m4 = views(errors@);
        check_runtime_operations(&context.runtime_operations, &mut ids, &mut errors);
        let ghost m5 = views(errors@);
        let criteria = context.criteria_root.get_all_criteria();
        proof {
            let cs = forest_criteria(c.criteria_root.trees@);
            assert(criteria@.map_values(|k: &CriterionDeclaration| *k) =~= cs);
        }
        check_criteria(&criteria, &mut errors);
        let ghost m6 = views(errors@);
        check_local_states(&context.ctn_local_states.entries, &mut errors);
        let ghost m7 = views(errors@);
        check_local_objects(&context.ctn_local_objects.entries, &mut errors);
        let ghost m8 = views(errors@);
        proof {
            assert(views(ids@) =~= global_identifiers(c));
        }
        check_reserved(&ids, &mut errors);
        proof {
            assert(m1 =~= variables_problems(c.variables@, Seq::empty()));
            assert(views(errors@) =~= structure_problems(c));
        }
        if errors.len() == 0 {
            Ok(())
        } else {
            Err(join_strings(&errors, "; "))
        }
    }
}

} // verus!
