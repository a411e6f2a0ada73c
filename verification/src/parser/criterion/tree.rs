//! Reading criteria from the AST: CRI blocks nest CTN blocks; a CTN block has
//! a TEST line, references to global states and objects, local states and
//! at most one local object.

use vstd::prelude::*;
use crate::strings::{concat2, concat3, concat4, concat5, to_owned_string, usize_to_string, decimal,
    is_valid_identifier, spec_is_valid_identifier};
use crate::json::{JsonValue, json_get, json_get_str, json_str};
use crate::types::common::{DataType, Operation, LogicalOp, Value, data_type_name, operation_of};
use crate::types::test::{ExistenceCheck, ItemCheck, StateJoinOp, TestSpecification, existence_check_of,
    item_check_of, state_join_op_of};
use crate::types::state::{StateDeclaration, StateField, StateRef, RecordCheck, EntityCheck, entity_check_of,
    fields_var_refs, state_var_refs, value_var_ref, record_checks_var_refs};
use crate::types::object::{ObjectDeclaration, ObjectRef, ObjectElement, elements_var_refs, elements_filter_refs,
    element_var_ref, collect_element_filter_refs};
use crate::types::criterion::{CriterionDeclaration, CtnNodeId};
use crate::types::criteria::{CriteriaTree, CriteriaRoot, tree_criteria, forest_criteria};
use crate::types::resolution_context::{ResolutionContext, DeferredValidation, ValidationType, deferrals,
    deferrals_to};
use crate::parser::object::{ObjectParsingContext, parse_object_from_json, object_error, object_items,
    object_parsed, object_element_deferrals, object_element_notes, json_items, good_elements, json_state_ids,
    element_parsed, element_error, local_object_json, lemma_good_elements_bounded};
use crate::parser::variable::{parse_value_from_json, value_json_ok, value_from_json, json_int, json_float,
    json_bool, is_data_type_name};
use crate::resolution::error::{ResolutionError, invalid_input_debug, debug_invalid_input};
use crate::resolution::dag::views;

verus! {

/// A deferred validation as plain values: kind, source, target, context.
pub type Deferral = (ValidationType, Seq<char>, Seq<char>, Seq<char>);

// ---------------------------------------------------------------------------
// The TEST line
// ---------------------------------------------------------------------------

/// The state operator of a TEST line: absent or null means none.
pub open spec fn state_operator_outcome(o: Option<JsonValue>) -> Result<Option<StateJoinOp>, Seq<char>> {
    match o {
        None => Ok(None),
        Some(v) => if v is Null {
            Ok(None)
        } else {
            match json_str(v) {
                None => Err("State operator must be a string"@),
                Some(s) => match state_join_op_of(s) {
                    None => Err("Invalid state operator: "@ + s),
                    Some(op) => Ok(Some(op)),
                },
            }
        },
    }
}

/// The TEST line of a criterion, or the message of the error it gives.
pub open spec fn test_outcome(c: JsonValue) -> Result<TestSpecification, Seq<char>> {
    match json_get(c, "test"@) {
        None => Err("CTN missing test specification"@),
        Some(t) => match json_get_str(t, "existence_check"@) {
            None => Err("Test specification missing existence_check"@),
            Some(ec) => match existence_check_of(ec) {
                None => Err("Invalid existence check: "@ + ec),
                Some(e) => match json_get_str(t, "item_check"@) {
                    None => Err("Test specification missing item_check"@),
                    Some(ic) => match item_check_of(ic) {
                        None => Err("Invalid item check: "@ + ic),
                        Some(i) => match state_operator_outcome(json_get(t, "state_operator"@)) {
                            Err(m) => Err(m),
                            Ok(so) => Ok(TestSpecification { existence_check: e, item_check: i, state_operator: so }),
                        },
                    },
                },
            },
        },
    }
}

fn invalid(message: String) -> (res: ResolutionError)
    ensures
        res == (ResolutionError::InvalidInput { message }),
{
    ResolutionError::InvalidInput { message }
}

/// Parse the TEST line of a criterion.
fn parse_test_specification(criterion_json: &JsonValue) -> (res: Result<TestSpecification, ResolutionError>)
    ensures
        match res {
            Ok(t) => test_outcome(*criterion_json) == Ok::<TestSpecification, Seq<char>>(t),
            Err(e) => e matches ResolutionError::InvalidInput { message }
                && test_outcome(*criterion_json) == Err::<TestSpecification, Seq<char>>(message@),
        },
{
    let test_json = match criterion_json.get("test") {
        Some(t) => t,
        None => {
            return Err(invalid(to_owned_string("CTN missing test specification")));
        },
    };
    let ec = match test_json.get_str("existence_check") {
        Some(s) => s,
        None => {
            return Err(invalid(to_owned_string("Test specification missing existence_check")));
        },
    };
    let existence_check = match ExistenceCheck::from_str(ec) {
        Some(x) => x,
        None => {
            return Err(invalid(concat2("Invalid existence check: ", ec)));
        },
    };
    let ic = match test_json.get_str("item_check") {
        Some(s) => s,
        None => {
            return Err(invalid(to_owned_string("Test specification missing item_check")));
        },
    };
    let item_check = match ItemCheck::from_str(ic) {
        Some(x) => x,
        None => {
            return Err(invalid(concat2("Invalid item check: ", ic)));
        },
    };
    let state_operator = match test_json.get("state_operator") {
        Some(so) => if so.is_null() {
            None
        } else {
            match so.as_str() {
                None => {
                    return Err(invalid(to_owned_string("State operator must be a string")));
                },
                Some(s) => match StateJoinOp::from_str(s) {
                    Some(op) => Some(op),
                    None => {
                        return Err(invalid(concat2("Invalid state operator: ", s)));
                    },
                },
            }
        },
        None => None,
    };
    Ok(TestSpecification::new(existence_check, item_check, state_operator))
}

// ---------------------------------------------------------------------------
// References to global states and objects
// ---------------------------------------------------------------------------

/// The identifiers of a list of references under `key`, or the message of the
/// first error: a reference without the key, or one that is no identifier.
pub open spec fn ref_ids_outcome(items: Seq<JsonValue>, key: Seq<char>, missing: Seq<char>, bad: Seq<char>)
    -> Result<Seq<Seq<char>>, Seq<char>>
    decreases items.len(),
{
    if items.len() == 0 {
        Ok(Seq::empty())
    } else {
        match ref_ids_outcome(items.drop_last(), key, missing, bad) {
            Err(m) => Err(m),
            Ok(ids) => match json_get_str(items.last(), key) {
                None => Err(missing),
                Some(id) => if spec_is_valid_identifier(id) {
                    Ok(ids.push(id))
                } else {
                    Err(bad + id + "'"@)
                },
            },
        }
    }
}

/// An error in a prefix of the references is the error of the whole list.
proof fn lemma_ref_ids_prefix_err(items: Seq<JsonValue>, k: int, key: Seq<char>, missing: Seq<char>, bad: Seq<char>)
    requires
        0 <= k <= items.len(),
        ref_ids_outcome(items.subrange(0, k), key, missing, bad) is Err,
    ensures
        ref_ids_outcome(items, key, missing, bad) == ref_ids_outcome(items.subrange(0, k), key, missing, bad),
    decreases items.len() - k,
{
    if k < items.len() {
        assert(items.subrange(0, k + 1).drop_last() =~= items.subrange(0, k));
        lemma_ref_ids_prefix_err(items, k + 1, key, missing, bad);
    } else {
        assert(items.subrange(0, k) =~= items);
    }
}

/// The global states a criterion references.
pub open spec fn state_ids_outcome(c: JsonValue) -> Result<Seq<Seq<char>>, Seq<char>> {
    ref_ids_outcome(json_items(json_get(c, "state_refs"@)), "state_id"@, "State reference missing state_id"@,
        "Invalid state ID format: '"@)
}

/// The global objects a criterion references.
pub open spec fn object_ids_outcome(c: JsonValue) -> Result<Seq<Seq<char>>, Seq<char>> {
    ref_ids_outcome(json_items(json_get(c, "object_refs"@)), "object_id"@, "Object reference missing object_id"@,
        "Invalid object ID format: '"@)
}

/// One deferred validation of kind `t` per referenced identifier; the
/// context names the criterion and the identifier.
pub open spec fn ref_deferrals(t: ValidationType, ct: Seq<char>, ids: Seq<Seq<char>>, what: Seq<char>) -> Seq<Deferral> {
    ids.map_values(|id: Seq<char>| (t, "CTN:"@ + ct, id, "CTN '"@ + ct + "' references "@ + what + " '"@ + id + "'"@))
}

/// Read the references under `list_key`, each naming an identifier under
/// `key`, and defer the validation of each.
fn parse_refs(criterion_json: &JsonValue, criterion_type: &str, list_key: &str, key: &str, missing: &str,
    bad: &str, t: ValidationType, what: &str, context: &mut ResolutionContext) -> (res: Result<Vec<String>, ResolutionError>)
    ensures
        match res {
            Ok(ids) => ref_ids_outcome(json_items(json_get(*criterion_json, list_key@)), key@, missing@, bad@)
                    == Ok::<Seq<Seq<char>>, Seq<char>>(views(ids@))
                && deferrals(final(context).deferred_validations@)
                    == deferrals(old(context).deferred_validations@) + ref_deferrals(t, criterion_type@, views(ids@), what@),
            Err(e) => e matches ResolutionError::InvalidInput { message }
                && ref_ids_outcome(json_items(json_get(*criterion_json, list_key@)), key@, missing@, bad@)
                    == Err::<Seq<Seq<char>>, Seq<char>>(message@),
        },
        *final(context) == (ResolutionContext { deferred_validations: final(context).deferred_validations, ..*old(context) }),
{
    let empty: Vec<JsonValue> = Vec::new();
    let items = match criterion_json.get(list_key) {
        Some(v) => match v.as_array() {
            Some(a) => a,
            None => &empty,
        },
        None => &empty,
    };
    let ghost all = json_items(json_get(*criterion_json, list_key@));
    let ghost d0 = deferrals(context.deferred_validations@);
    assert(items@ == all);
    let mut ids: Vec<String> = Vec::new();
    let mut i: usize = 0;
    proof {
        assert(all.subrange(0, 0) =~= Seq::<JsonValue>::empty());
        assert(views(ids@) =~= Seq::<Seq<char>>::empty());
        assert(ref_deferrals(t, criterion_type@, views(ids@), what@) =~= Seq::<Deferral>::empty());
        assert(deferrals(context.deferred_validations@) =~= d0 + Seq::<Deferral>::empty());
    }
    while i < items.len()
        invariant
            i <= items@.len(),
            items@ == all,
            all == json_items(json_get(*criterion_json, list_key@)),
            d0 == deferrals(old(context).deferred_validations@),
            ref_ids_outcome(all.subrange(0, i as int), key@, missing@, bad@) == Ok::<Seq<Seq<char>>, Seq<char>>(views(ids@)),
            deferrals(context.deferred_validations@) == d0 + ref_deferrals(t, criterion_type@, views(ids@), what@),
            *context == (ResolutionContext { deferred_validations: context.deferred_validations, ..*old(context) }),
        decreases items@.len() - i,
    {
        proof {
            assert(all.subrange(0, i + 1).drop_last() =~= all.subrange(0, i as int));
            assert(all.subrange(0, i + 1).last() == all[i as int]);
        }
        let id = match items[i].get_str(key) {
            Some(s) => s,
            None => {
                proof {
                    lemma_ref_ids_prefix_err(all, i + 1, key@, missing@, bad@);
                }
                return Err(invalid(to_owned_string(missing)));
            },
        };
        if !is_valid_identifier(id) {
            proof {
                lemma_ref_ids_prefix_err(all, i + 1, key@, missing@, bad@);
            }
            return Err(invalid(concat3(bad, id, "'")));
        }
        let source = concat2("CTN:", criterion_type);
        let ctx = concat5("CTN '", criterion_type, "' references ", what, " '");
        let mut ctx2 = ctx;
        ctx2.append(id);
        ctx2.append("'");
        let ghost before = deferrals(context.deferred_validations@);
        context.add_deferred_validation(DeferredValidation {
            validation_type: t,
            source_symbol: source,
            target_symbol: to_owned_string(id),
            context: ctx2,
        });
        let ghost prev = views(ids@);
        ids.push(to_owned_string(id));
        proof {
            assert(views(ids@) =~= prev.push(id@));
            assert(ref_deferrals(t, criterion_type@, views(ids@), what@)
                =~= ref_deferrals(t, criterion_type@, prev, what@).push(
                    (t, "CTN:"@ + criterion_type@, id@, "CTN '"@ + criterion_type@ + "' references "@ + what@ + " '"@ + id@ + "'"@)));
            assert(deferrals(context.deferred_validations@) =~= before.push(
                    (t, "CTN:"@ + criterion_type@, id@, "CTN '"@ + criterion_type@ + "' references "@ + what@ + " '"@ + id@ + "'"@)));
        }
        i = i + 1;
    }
    proof {
        assert(all.subrange(0, all.len() as int) =~= all);
    }
    Ok(ids)
}

/// Read the global state references of a criterion; each is deferred for
/// validation once every symbol is known.
fn parse_state_refs(criterion_json: &JsonValue, criterion_type: &str, context: &mut ResolutionContext)
    -> (res: Result<Vec<StateRef>, ResolutionError>)
    ensures
        match res {
            Ok(refs) => state_ids_outcome(*criterion_json)
                    == Ok::<Seq<Seq<char>>, Seq<char>>(refs@.map_values(|r: StateRef| r.state_id@))
                && deferrals(final(context).deferred_validations@) == deferrals(old(context).deferred_validations@)
                    + ref_deferrals(ValidationType::StateReference, criterion_type@,
                        refs@.map_values(|r: StateRef| r.state_id@), "global state"@),
            Err(e) => e matches ResolutionError::InvalidInput { message }
                && state_ids_outcome(*criterion_json) == Err::<Seq<Seq<char>>, Seq<char>>(message@),
        },
        *final(context) == (ResolutionContext { deferred_validations: final(context).deferred_validations, ..*old(context) }),
{
    let ids = parse_refs(criterion_json, criterion_type, "state_refs", "state_id", "State reference missing state_id",
        "Invalid state ID format: '", ValidationType::StateReference, "global state", context)?;
    let mut refs: Vec<StateRef> = Vec::new();
    let mut i: usize = 0;
    while i < ids.len()
        invariant
            i <= ids@.len(),
            refs@.map_values(|r: StateRef| r.state_id@) =~= views(ids@).subrange(0, i as int),
        decreases ids@.len() - i,
    {
        let ghost prev = refs@;
        refs.push(StateRef::new(ids[i].as_str()));
        proof {
            assert(views(ids@).subrange(0, i + 1) =~= views(ids@).subrange(0, i as int).push(ids@[i as int]@));
            assert(refs@.map_values(|r: StateRef| r.state_id@)
                =~= prev.map_values(|r: StateRef| r.state_id@).push(ids@[i as int]@));
        }
        i = i + 1;
    }
    proof {
        assert(views(ids@).subrange(0, ids@.len() as int) =~= views(ids@));
    }
    Ok(refs)
}

/// Read the global object references of a criterion; each is deferred for
/// validation once every symbol is known.
fn parse_object_refs(criterion_json: &JsonValue, criterion_type: &str, context: &mut ResolutionContext)
    -> (res: Result<Vec<ObjectRef>, ResolutionError>)
    ensures
        match res {
            Ok(refs) => object_ids_outcome(*criterion_json)
                    == Ok::<Seq<Seq<char>>, Seq<char>>(refs@.map_values(|r: ObjectRef| r.object_id@))
                && deferrals(final(context).deferred_validations@) == deferrals(old(context).deferred_validations@)
                    + ref_deferrals(ValidationType::ObjectReference, criterion_type@,
                        refs@.map_values(|r: ObjectRef| r.object_id@), "global object"@),
            Err(e) => e matches ResolutionError::InvalidInput { message }
                && object_ids_outcome(*criterion_json) == Err::<Seq<Seq<char>>, Seq<char>>(message@),
        },
        *final(context) == (ResolutionContext { deferred_validations: final(context).deferred_validations, ..*old(context) }),
{
    let ids = parse_refs(criterion_json, criterion_type, "object_refs", "object_id",
        "Object reference missing object_id", "Invalid object ID format: '", ValidationType::ObjectReference,
        "global object", context)?;
    let mut refs: Vec<ObjectRef> = Vec::new();
    let mut i: usize = 0;
    while i < ids.len()
        invariant
            i <= ids@.len(),
            refs@.map_values(|r: ObjectRef| r.object_id@) =~= views(ids@).subrange(0, i as int),
        decreases ids@.len() - i,
    {
        let ghost prev = refs@;
        refs.push(ObjectRef::new(ids[i].clone()));
        proof {
            assert(views(ids@).subrange(0, i + 1) =~= views(ids@).subrange(0, i as int).push(ids@[i as int]@));
            assert(refs@.map_values(|r: ObjectRef| r.object_id@)
                =~= prev.map_values(|r: ObjectRef| r.object_id@).push(ids@[i as int]@));
        }
        i = i + 1;
    }
    proof {
        assert(views(ids@).subrange(0, ids@.len() as int) =~= views(ids@));
    }
    Ok(refs)
}

// ---------------------------------------------------------------------------
// Local states
// ---------------------------------------------------------------------------

/// A field of a local state reads when it has a name, a known data type, a
/// known operation and a value of a known form.
pub open spec fn local_field_ok(f: JsonValue) -> bool {
    &&& json_get_str(f, "name"@) is Some
    &&& json_get_str(f, "data_type"@) is Some
    &&& is_data_type_name(json_get_str(f, "data_type"@)->Some_0)
    &&& json_get_str(f, "operation"@) is Some
    &&& operation_of(json_get_str(f, "operation"@)->Some_0) is Some
    &&& json_get(f, "value"@) is Some
    &&& value_json_ok(json_get(f, "value"@)->Some_0)
}

/// `x` is the field that the readable `f` describes; an unknown entity check
/// reads as none.
pub open spec fn local_field_parsed(f: JsonValue, x: StateField) -> bool {
    &&& x.name@ == json_get_str(f, "name"@)->Some_0
    &&& data_type_name(x.data_type) == json_get_str(f, "data_type"@)->Some_0
    &&& operation_of(json_get_str(f, "operation"@)->Some_0) == Some(x.operation)
    &&& value_from_json(json_get(f, "value"@)->Some_0, x.value)
    &&& x.entity_check == (match json_get_str(f, "entity_check"@) {
        Some(s) => entity_check_of(s),
        None => None,
    })
}

/// The variable that a value of a known form names, if it is a reference.
pub open spec fn value_json_var(v: JsonValue) -> Seq<Seq<char>> {
    if json_get_str(v, "String"@) is None && json_int(json_get(v, "Integer"@)) is None
        && json_float(json_get(v, "Float"@)) is None && json_bool(json_get(v, "Boolean"@)) is None
    {
        seq![json_get_str(v, "Variable"@)->Some_0]
    } else {
        Seq::empty()
    }
}

/// The positions of the readable fields of a list, in order.
pub open spec fn kept_fields(items: Seq<JsonValue>) -> Seq<int>
    decreases items.len(),
{
    if items.len() == 0 {
        Seq::empty()
    } else {
        kept_fields(items.drop_last()) + if local_field_ok(items.last()) { seq![items.len() - 1] } else { Seq::empty() }
    }
}

/// The variables that the readable fields of a list refer to, in order.
pub open spec fn local_fields_vars(items: Seq<JsonValue>) -> Seq<Seq<char>>
    decreases items.len(),
{
    if items.len() == 0 {
        Seq::empty()
    } else {
        local_fields_vars(items.drop_last()) + if local_field_ok(items.last()) {
            value_json_var(json_get(items.last(), "value"@)->Some_0)
        } else {
            Seq::empty()
        }
    }
}

/// The validation a field of the local state `sid` defers for the variable
/// its value names.
pub open spec fn value_var_deferrals(v: JsonValue, sid: Seq<char>, name: Seq<char>) -> Seq<Deferral> {
    value_json_var(v).map_values(|x: Seq<char>| (ValidationType::VariableReference,
        "State:"@ + sid + ":Field:"@ + name, x, "State field '"@ + name + "' in state '"@ + sid + "' references variable"@))
}

/// The validations the readable fields of the local state `sid` defer.
pub open spec fn local_fields_deferrals(items: Seq<JsonValue>, sid: Seq<char>) -> Seq<Deferral>
    decreases items.len(),
{
    if items.len() == 0 {
        Seq::empty()
    } else {
        local_fields_deferrals(items.drop_last(), sid) + if local_field_ok(items.last()) {
            value_var_deferrals(json_get(items.last(), "value"@)->Some_0, sid, json_get_str(items.last(), "name"@)->Some_0)
        } else {
            Seq::empty()
        }
    }
}

/// `st` is the local state that `j` (which has an id) describes: its readable
/// fields in order, and no record checks.
pub open spec fn local_state_parsed(j: JsonValue, st: StateDeclaration) -> bool {
    let items = json_items(json_get(j, "fields"@));
    let pos = kept_fields(items);
    &&& st.identifier@ == json_get_str(j, "id"@)->Some_0
    &&& !st.is_global
    &&& st.record_checks@.len() == 0
    &&& st.fields@.len() == pos.len()
    &&& forall|k: int| 0 <= k < pos.len() ==> local_field_parsed(items[pos[k]], #[trigger] st.fields@[k])
}

/// The validations a local state of the criterion `ct` defers: those of its
/// fields, then one per variable it refers to.
pub open spec fn local_state_deferrals(j: JsonValue, ct: Seq<char>) -> Seq<Deferral> {
    let sid = json_get_str(j, "id"@)->Some_0;
    let items = json_items(json_get(j, "fields"@));
    local_fields_deferrals(items, sid) + deferrals_to(ValidationType::VariableReference,
        "CTN:"@ + ct + ":LocalState:"@ + sid, local_fields_vars(items),
        "Local state '"@ + sid + "' in CTN '"@ + ct + "' references variable"@)
}

/// The local states of a criterion.
pub open spec fn criterion_local_states(c: JsonValue) -> Seq<JsonValue> {
    json_items(json_get(c, "local_states"@))
}

/// Every local state has an id.
pub open spec fn local_states_ok(states: Seq<JsonValue>) -> bool {
    forall|i: int| 0 <= i < states.len() ==> json_get_str(#[trigger] states[i], "id"@) is Some
}

/// The validations a list of local states of the criterion `ct` defers.
pub open spec fn local_states_deferrals(states: Seq<JsonValue>, ct: Seq<char>) -> Seq<Deferral>
    decreases states.len(),
{
    if states.len() == 0 {
        Seq::empty()
    } else {
        local_states_deferrals(states.drop_last(), ct) + local_state_deferrals(states.last(), ct)
    }
}

/// Parse the value of a local state field; a variable reference is deferred
/// for validation.
fn parse_value_from_json_simple(value_json: &JsonValue, state_id: &str, field_name: &str,
    context: &mut ResolutionContext) -> (res: Result<Value, ResolutionError>)
    ensures
        match res {
            Ok(x) => value_json_ok(*value_json) && value_from_json(*value_json, x)
                && value_var_ref(x) == value_json_var(*value_json)
                && deferrals(final(context).deferred_validations@) == deferrals(old(context).deferred_validations@)
                    + value_var_deferrals(*value_json, state_id@, field_name@),
            Err(e) => !value_json_ok(*value_json) && *final(context) == *old(context)
                && e == (ResolutionError::InvalidInput { message: e->message })
                && e->message@ == "Unknown value type in state field"@,
        },
        *final(context) == (ResolutionContext { deferred_validations: final(context).deferred_validations, ..*old(context) }),
{
    match parse_value_from_json(value_json) {
        Err(_) => Err(invalid(to_owned_string("Unknown value type in state field"))),
        Ok(v) => {
            let ghost d0 = deferrals(context.deferred_validations@);
            match &v {
                Value::Variable(name) => {
                    let target = name.clone();
                    context.defer_variable_reference_validation(concat4("State:", state_id, ":Field:", field_name),
                        target, concat5("State field '", field_name, "' in state '", state_id, "' references variable"));
                    proof {
                        assert(value_json_var(*value_json) =~= seq![name@]);
                        assert(deferrals(context.deferred_validations@)
                            =~= d0 + value_var_deferrals(*value_json, state_id@, field_name@));
                    }
                },
                _ => {
                    proof {
                        assert(value_json_var(*value_json) =~= Seq::<Seq<char>>::empty());
                        assert(d0 =~= d0 + value_var_deferrals(*value_json, state_id@, field_name@));
                    }
                },
            }
            Ok(v)
        },
    }
}

/// Parse a field of a local state.
fn parse_state_field_from_json(field_json: &JsonValue, state_id: &str, context: &mut ResolutionContext)
    -> (res: Result<StateField, ResolutionError>)
    ensures
        match res {
            Ok(f) => local_field_ok(*field_json) && local_field_parsed(*field_json, f)
                && value_var_ref(f.value) == value_json_var(json_get(*field_json, "value"@)->Some_0)
                && deferrals(final(context).deferred_validations@) == deferrals(old(context).deferred_validations@)
                    + value_var_deferrals(json_get(*field_json, "value"@)->Some_0, state_id@,
                        json_get_str(*field_json, "name"@)->Some_0),
            Err(_) => !local_field_ok(*field_json) && *final(context) == *old(context),
        },
        *final(context) == (ResolutionContext { deferred_validations: final(context).deferred_validations, ..*old(context) }),
{
    let name = match field_json.get_str("name") {
        Some(n) => n,
        None => {
            return Err(invalid(to_owned_string("State field missing name")));
        },
    };
    let dt = match field_json.get_str("data_type") {
        Some(d) => d,
        None => {
            return Err(invalid(to_owned_string("State field missing data_type")));
        },
    };
    let data_type = match DataType::from_str(dt) {
        Some(t) => t,
        None => {
            return Err(invalid(concat2("Invalid data type: ", dt)));
        },
    };
    let op = match field_json.get_str("operation") {
        Some(o) => o,
        None => {
            return Err(invalid(to_owned_string("State field missing operation")));
        },
    };
    let operation = match Operation::from_str(op) {
        Some(o) => o,
        None => {
            return Err(invalid(concat2("Invalid operation: ", op)));
        },
    };
    let value_json = match field_json.get("value") {
        Some(v) => v,
        None => {
            return Err(invalid(to_owned_string("State field missing value")));
        },
    };
    let value = parse_value_from_json_simple(value_json, state_id, name, context)?;
    let entity_check = match field_json.get_str("entity_check") {
        Some(s) => EntityCheck::from_str(s),
        None => None,
    };
    Ok(StateField { name: to_owned_string(name), data_type, operation, value, entity_check })
}

/// Record checks are not read in local states: every one is refused.
fn parse_record_check_from_json(record_json: &JsonValue, state_id: &str) -> (res: Result<RecordCheck, ResolutionError>)
    ensures
        res is Err,
{
    Err(invalid(to_owned_string("Record checks not yet implemented in local parser")))
}

/// Parse a local state: its readable fields; unreadable fields and record
/// checks are skipped.
fn parse_local_state_from_json(state_json: &JsonValue, context: &mut ResolutionContext)
    -> (res: Result<StateDeclaration, ResolutionError>)
    ensures
        match res {
            Ok(st) => json_get_str(*state_json, "id"@) is Some && local_state_parsed(*state_json, st)
                && state_var_refs(st) == local_fields_vars(json_items(json_get(*state_json, "fields"@)))
                && deferrals(final(context).deferred_validations@) == deferrals(old(context).deferred_validations@)
                    + local_fields_deferrals(json_items(json_get(*state_json, "fields"@)),
                        json_get_str(*state_json, "id"@)->Some_0),
            Err(e) => json_get_str(*state_json, "id"@) is None && *final(context) == *old(context)
                && e == (ResolutionError::InvalidInput { message: e->message })
                && e->message@ == "State missing id field"@,
        },
        *final(context) == (ResolutionContext { deferred_validations: final(context).deferred_validations, ..*old(context) }),
{
    let identifier = match state_json.get_str("id") {
        Some(x) => x,
        None => {
            return Err(invalid(to_owned_string("State missing id field")));
        },
    };
    let empty: Vec<JsonValue> = Vec::new();
    let items = match state_json.get("fields") {
        Some(v) => match v.as_array() {
            Some(a) => a,
            None => &empty,
        },
        None => &empty,
    };
    let ghost all = json_items(json_get(*state_json, "fields"@));
    let ghost sid = identifier@;
    let ghost d0 = deferrals(context.deferred_validations@);
    assert(items@ == all);
    let mut fields: Vec<StateField> = Vec::new();
    let mut i: usize = 0;
    proof {
        assert(all.subrange(0, 0) =~= Seq::<JsonValue>::empty());
        assert(deferrals(context.deferred_validations@) =~= d0 + Seq::<Deferral>::empty());
    }
    while i < items.len()
        invariant
            i <= items@.len(),
            items@ == all,
            all == json_items(json_get(*state_json, "fields"@)),
            sid == identifier@,
            d0 == deferrals(old(context).deferred_validations@),
            fields@.len() == kept_fields(all.subrange(0, i as int)).len(),
            forall|k: int| 0 <= k < fields@.len() ==> local_field_parsed(
                all[kept_fields(all.subrange(0, i as int))[k]], #[trigger] fields@[k]),
            forall|k: int| 0 <= k < fields@.len() ==> 0 <= #[trigger] kept_fields(all.subrange(0, i as int))[k] < i,
            fields_var_refs(fields@) == local_fields_vars(all.subrange(0, i as int)),
            deferrals(context.deferred_validations@) == d0 + local_fields_deferrals(all.subrange(0, i as int), sid),
            *context == (ResolutionContext { deferred_validations: context.deferred_validations, ..*old(context) }),
        decreases items@.len() - i,
    {
        let ghost sub = all.subrange(0, i + 1);
        let ghost pre = kept_fields(all.subrange(0, i as int));
        proof {
            assert(sub.drop_last() =~= all.subrange(0, i as int));
            assert(sub.last() == all[i as int]);
        }
        let ghost db = deferrals(context.deferred_validations@);
        match parse_state_field_from_json(&items[i], identifier, context) {
            Ok(f) => {
                let ghost prev = fields@;
                fields.push(f);
                proof {
                    assert(kept_fields(sub) == pre.push(i as int));
                    assert(fields@.drop_last() =~= prev);
                    assert(fields_var_refs(fields@) == fields_var_refs(prev) + value_var_ref(f.value));
                    assert(local_fields_vars(sub) == local_fields_vars(all.subrange(0, i as int))
                        + value_json_var(json_get(all[i as int], "value"@)->Some_0));
                    assert(deferrals(context.deferred_validations@) =~= d0 + local_fields_deferrals(sub, sid));
                    assert forall|k: int| 0 <= k < fields@.len() implies local_field_parsed(
                        all[kept_fields(sub)[k]], #[trigger] fields@[k]) by {
                        if k < prev.len() {
                            assert(kept_fields(sub)[k] == pre[k]);
                        }
                    }
                    assert forall|k: int| 0 <= k < fields@.len() implies 0 <= #[trigger] kept_fields(sub)[k] < i + 1 by {
                        if k < prev.len() {
                            assert(kept_fields(sub)[k] == pre[k]);
                        }
                    }
                }
            },
            Err(_) => {
                proof {
                    assert(kept_fields(sub) =~= pre);
                    assert(local_fields_vars(sub) =~= local_fields_vars(all.subrange(0, i as int)));
                    assert(local_fields_deferrals(sub, sid) =~= local_fields_deferrals(all.subrange(0, i as int), sid));
                }
            },
        }
        i = i + 1;
    }
    proof {
        assert(all.subrange(0, all.len() as int) =~= all);
    }
    let records = match state_json.get("record_checks") {
        Some(v) => match v.as_array() {
            Some(a) => a,
            None => &empty,
        },
        None => &empty,
    };
    let mut record_checks: Vec<RecordCheck> = Vec::new();
    let mut r: usize = 0;
    while r < records.len()
        invariant
            r <= records@.len(),
            record_checks@.len() == 0,
        decreases records@.len() - r,
    {
        if let Ok(rc) = parse_record_check_from_json(&records[r], identifier) {
            record_checks.push(rc);
        }
        r = r + 1;
    }
    let st = StateDeclaration { identifier: to_owned_string(identifier), fields, record_checks, is_global: false };
    proof {
        assert(record_checks_var_refs(st.record_checks@) =~= Seq::<Seq<char>>::empty());
        assert(state_var_refs(st) =~= local_fields_vars(all));
    }
    Ok(st)
}

/// Parse the local states of a criterion; the variables each refers to are
/// deferred for validation. A state without an id fails the criterion.
fn parse_local_states(criterion_json: &JsonValue, criterion_type: &str, context: &mut ResolutionContext)
    -> (res: Result<Vec<StateDeclaration>, ResolutionError>)
    ensures
        match res {
            Ok(v) => {
                let states = criterion_local_states(*criterion_json);
                &&& local_states_ok(states)
                &&& v@.len() == states.len()
                &&& forall|k: int| 0 <= k < states.len() ==> local_state_parsed(states[k], #[trigger] v@[k])
                &&& deferrals(final(context).deferred_validations@) == deferrals(old(context).deferred_validations@)
                    + local_states_deferrals(states, criterion_type@)
                &&& final(context).parsing_errors@ == old(context).parsing_errors@
            },
            Err(e) => !local_states_ok(criterion_local_states(*criterion_json))
                && e == (ResolutionError::InvalidInput { message: e->message })
                && e->message@ == "State missing id field"@,
        },
        *final(context) == (ResolutionContext {
            deferred_validations: final(context).deferred_validations,
            parsing_errors: final(context).parsing_errors,
            ..*old(context)
        }),
{
    let empty: Vec<JsonValue> = Vec::new();
    let items = match criterion_json.get("local_states") {
        Some(v) => match v.as_array() {
            Some(a) => a,
            None => &empty,
        },
        None => &empty,
    };
    let ghost all = criterion_local_states(*criterion_json);
    let ghost d0 = deferrals(context.deferred_validations@);
    assert(items@ == all);
    let mut states: Vec<StateDeclaration> = Vec::new();
    let mut i: usize = 0;
    proof {
        assert(all.subrange(0, 0) =~= Seq::<JsonValue>::empty());
        assert(deferrals(context.deferred_validations@) =~= d0 + Seq::<Deferral>::empty());
    }
    while i < items.len()
        invariant
            i <= items@.len(),
            items@ == all,
            all == criterion_local_states(*criterion_json),
            d0 == deferrals(old(context).deferred_validations@),
            states@.len() == i,
            forall|k: int| 0 <= k < i ==> json_get_str(#[trigger] all[k], "id"@) is Some,
            forall|k: int| 0 <= k < i ==> local_state_parsed(all[k], #[trigger] states@[k]),
            deferrals(context.deferred_validations@) == d0 + local_states_deferrals(all.subrange(0, i as int), criterion_type@),
            context.parsing_errors@ == old(context).parsing_errors@,
            *context == (ResolutionContext { deferred_validations: context.deferred_validations, ..*old(context) }),
        decreases items@.len() - i,
    {
        let ghost sub = all.subrange(0, i + 1);
        proof {
            assert(sub.drop_last() =~= all.subrange(0, i as int));
            assert(sub.last() == all[i as int]);
        }
        match parse_local_state_from_json(&items[i], context) {
            Ok(st) => {
                let ghost mid = deferrals(context.deferred_validations@);
                let vars = st.get_variable_references();
                let src = concat4("CTN:", criterion_type, ":LocalState:", st.identifier.as_str());
                let ctx = concat5("Local state '", st.identifier.as_str(), "' in CTN '", criterion_type,
                    "' references variable");
                context.defer_all(ValidationType::VariableReference, src.as_str(), &vars, ctx.as_str());
                states.push(st);
                proof {
                    assert(deferrals(context.deferred_validations@) =~= d0 + local_states_deferrals(sub, criterion_type@));
                }
            },
            Err(e) => {
                let ghost e0 = *context;
                let mut note = concat2("Failed to parse local state ", usize_to_string(i).as_str());
                note.append(" in CTN '");
                note.append(criterion_type);
                note.append("': ");
                note.append(crate::resolution::error::debug_resolution_error(&e).as_str());
                context.add_parsing_error(note);
                proof {
                    assert(!local_states_ok(all)) by {
                        assert(json_get_str(all[i as int], "id"@) is None);
                    }
                }
                return Err(e);
            },
        }
        i = i + 1;
    }
    proof {
        assert(all.subrange(0, all.len() as int) =~= all);
    }
    Ok(states)
}

// ---------------------------------------------------------------------------
// The local object
// ---------------------------------------------------------------------------

/// The variable a well-formed object element refers to, if any.
pub open spec fn element_json_var(e: JsonValue) -> Seq<Seq<char>> {
    if json_get(e, "Field"@) is Some {
        value_json_var(json_get(json_get(e, "Field"@)->Some_0, "value"@)->Some_0)
    } else {
        Seq::empty()
    }
}

/// The states a well-formed filter element refers to.
pub open spec fn element_json_filter_refs(e: JsonValue) -> Seq<Seq<char>> {
    if json_get(e, "Field"@) is None && json_get(e, "Parameter"@) is None && json_get(e, "Select"@) is None
        && json_get(e, "Behavior"@) is None && json_get(e, "Filter"@) is Some
    {
        json_state_ids(json_items(json_get(json_get(e, "Filter"@)->Some_0, "state_refs"@)))
    } else {
        Seq::empty()
    }
}

/// The variables the elements of the object `id` that parse refer to.
pub open spec fn object_json_vars(items: Seq<JsonValue>, id: Seq<char>) -> Seq<Seq<char>>
    decreases items.len(),
{
    if items.len() == 0 {
        Seq::empty()
    } else {
        object_json_vars(items.drop_last(), id)
            + if element_error(items.last(), id) is None { element_json_var(items.last()) } else { Seq::empty() }
    }
}

/// The states the filters of the object `id` that parse refer to.
pub open spec fn object_json_filter_refs(items: Seq<JsonValue>, id: Seq<char>) -> Seq<Seq<char>>
    decreases items.len(),
{
    if items.len() == 0 {
        Seq::empty()
    } else {
        object_json_filter_refs(items.drop_last(), id)
            + if element_error(items.last(), id) is None { element_json_filter_refs(items.last()) } else { Seq::empty() }
    }
}

/// The elements parsed from a declaration refer to the variables and states
/// that the declaration names.
pub proof fn lemma_object_json_refs(items: Seq<JsonValue>, id: Seq<char>, elems: Seq<ObjectElement>)
    requires
        elems.len() == good_elements(items, id).len(),
        forall|k: int| 0 <= k < elems.len() ==> element_parsed(items[good_elements(items, id)[k]], #[trigger] elems[k]),
    ensures
        elements_var_refs(elems) == object_json_vars(items, id),
        elements_filter_refs(elems) == object_json_filter_refs(items, id),
    decreases items.len(),
{
    if items.len() > 0 {
        let pre = items.drop_last();
        let pos = good_elements(items, id);
        let ppos = good_elements(pre, id);
        lemma_good_elements_bounded(pre, id);
        if element_error(items.last(), id) is None {
            assert(pos == ppos.push(items.len() - 1));
            let pe = elems.drop_last();
            assert forall|k: int| 0 <= k < pe.len() implies element_parsed(pre[ppos[k]], #[trigger] pe[k]) by {
                assert(pos[k] == ppos[k]);
                assert(elems[k] == pe[k]);
            }
            lemma_object_json_refs(pre, id, pe);
            let last = elems.last();
            assert(elems[elems.len() - 1] == last);
            assert(element_parsed(items.last(), last));
            assert(elements_var_refs(elems) == elements_var_refs(pe) + element_var_ref(last));
            if json_get(items.last(), "Field"@) is Some {
                assert(element_var_ref(last) =~= element_json_var(items.last()));
            } else {
                assert(element_var_ref(last) =~= Seq::<Seq<char>>::empty());
            }
            match last {
                ObjectElement::Filter(f) => {
                    assert(f.state_refs@.map_values(|r: String| r@) =~= views(f.state_refs@));
                },
                _ => {},
            }
        } else {
            assert(pos == ppos);
            assert forall|k: int| 0 <= k < elems.len() implies element_parsed(pre[ppos[k]], #[trigger] elems[k]) by {
                assert(pre[ppos[k]] == items[ppos[k]]);
            }
            lemma_object_json_refs(pre, id, elems);
        }
    } else {
        assert(elems.len() == 0);
    }
}

/// The validations the local object `o` of the criterion `ct` defers: those
/// of its elements, then one per variable and one per filter state it
/// refers to.
pub open spec fn local_object_deferrals(o: JsonValue, ct: Seq<char>) -> Seq<Deferral> {
    let id = json_get_str(o, "id"@)->Some_0;
    let items = object_items(o);
    object_element_deferrals(items, id)
        + deferrals_to(ValidationType::VariableReference, "CTN:"@ + ct + ":LocalObject:"@ + id,
            object_json_vars(items, id), "Local object '"@ + id + "' in CTN '"@ + ct + "' references variable"@)
        + deferrals_to(ValidationType::FilterStateReference, "CTN:"@ + ct + ":LocalObject:"@ + id + ":FILTER"@,
            object_json_filter_refs(items, id), "Local object '"@ + id + "' filter in CTN '"@ + ct + "' references state"@)
}

/// Parse the local object of a criterion, when present and not null. What
/// its elements record and defer enters the context, and so do the
/// variables and filter states it refers to.
fn parse_local_object(criterion_json: &JsonValue, criterion_type: &str, context: &mut ResolutionContext)
    -> (res: Result<Option<ObjectDeclaration>, ResolutionError>)
    ensures
        match res {
            Ok(None) => local_object_json(*criterion_json) is None && *final(context) == *old(context),
            Ok(Some(x)) => local_object_json(*criterion_json) matches Some(o) && object_error(o) is None
                && object_parsed(o, false, x)
                && deferrals(final(context).deferred_validations@) == deferrals(old(context).deferred_validations@)
                    + local_object_deferrals(o, criterion_type@)
                && views(final(context).parsing_errors@) == views(old(context).parsing_errors@)
                    + object_element_notes(object_items(o), json_get_str(o, "id"@)->Some_0),
            Err(e) => local_object_json(*criterion_json) matches Some(o)
                && e == (ResolutionError::InvalidInput { message: e->message })
                && object_error(o) == Some(e->message@),
        },
        *final(context) == (ResolutionContext {
            deferred_validations: final(context).deferred_validations,
            parsing_errors: final(context).parsing_errors,
            ..*old(context)
        }),
{
    let lo = match criterion_json.get("local_object") {
        Some(o) => o,
        None => {
            return Ok(None);
        },
    };
    if lo.is_null() {
        return Ok(None);
    }
    let mut opc = ObjectParsingContext::new();
    match parse_object_from_json(lo, false, &mut opc) {
        Ok(o) => {
            let ghost d0 = deferrals(context.deferred_validations@);
            let ghost e0 = views(context.parsing_errors@);
            let ghost od = opc.deferred_validations@;
            let ghost oe = opc.parsing_errors@;
            opc.apply_to_resolution_context(context);
            proof {
                assert(deferrals(context.deferred_validations@) =~= d0 + deferrals(od));
                assert(views(context.parsing_errors@) =~= e0 + views(oe));
                assert(deferrals(od) =~= Seq::<Deferral>::empty() + deferrals(od));
                assert(views(oe) =~= Seq::<Seq<char>>::empty() + views(oe));
            }
            let id = o.identifier.as_str();
            let vars = o.get_variable_references();
            let src = concat4("CTN:", criterion_type, ":LocalObject:", id);
            let ctx = concat5("Local object '", id, "' in CTN '", criterion_type, "' references variable");
            context.defer_all(ValidationType::VariableReference, src.as_str(), &vars, ctx.as_str());
            let filters = collect_element_filter_refs(&o.elements);
            let fsrc = concat5("CTN:", criterion_type, ":LocalObject:", id, ":FILTER");
            let fctx = concat5("Local object '", id, "' filter in CTN '", criterion_type, "' references state");
            context.defer_all(ValidationType::FilterStateReference, fsrc.as_str(), &filters, fctx.as_str());
            proof {
                lemma_object_json_refs(object_items(*lo), o.identifier@, o.elements@);
                assert(deferrals(context.deferred_validations@) =~= d0 + local_object_deferrals(*lo, criterion_type@));
            }
            Ok(Some(o))
        },
        Err(e) => {
            let mut note = concat3("Failed to parse local object in CTN '", criterion_type, "': ");
            note.append(crate::resolution::error::debug_resolution_error(&e).as_str());
            context.add_parsing_error(note);
            Err(e)
        },
    }
}

// ---------------------------------------------------------------------------
// A criterion (CTN block)
// ---------------------------------------------------------------------------

/// The error the local object of a criterion gives, if it has one.
pub open spec fn local_object_error(c: JsonValue) -> Option<Seq<char>> {
    match local_object_json(c) {
        Some(o) => object_error(o),
        None => None,
    }
}

/// The message of the error a criterion gives, if any: the first of a
/// missing or malformed type, a bad TEST line, a bad state or object
/// reference, a local state without id, a bad local object, or no content.
pub open spec fn criterion_error(c: JsonValue) -> Option<Seq<char>> {
    match json_get_str(c, "criterion_type"@) {
        None => Some("Criterion missing criterion_type"@),
        Some(ct) => if !spec_is_valid_identifier(ct) {
            Some("Invalid criterion type identifier format: '"@ + ct + "'"@)
        } else if test_outcome(c) is Err {
            Some(test_outcome(c)->Err_0)
        } else if state_ids_outcome(c) is Err {
            Some(state_ids_outcome(c)->Err_0)
        } else if object_ids_outcome(c) is Err {
            Some(object_ids_outcome(c)->Err_0)
        } else if !local_states_ok(criterion_local_states(c)) {
            Some("State missing id field"@)
        } else if local_object_error(c) is Some {
            local_object_error(c)
        } else if state_ids_outcome(c)->Ok_0.len() == 0 && object_ids_outcome(c)->Ok_0.len() == 0
            && criterion_local_states(c).len() == 0 && local_object_json(c) is None
        {
            Some("CTN '"@ + ct + "' must have at least one state reference, object reference, or local element"@)
        } else {
            None
        }
    }
}

/// `d` is the criterion that the well-formed `c` describes, numbered `n`.
pub open spec fn criterion_parsed(c: JsonValue, n: int, d: CriterionDeclaration) -> bool {
    let states = criterion_local_states(c);
    &&& d.criterion_type@ == json_get_str(c, "criterion_type"@)->Some_0
    &&& test_outcome(c) == Ok::<TestSpecification, Seq<char>>(d.test)
    &&& state_ids_outcome(c) == Ok::<Seq<Seq<char>>, Seq<char>>(d.state_refs@.map_values(|r: StateRef| r.state_id@))
    &&& object_ids_outcome(c) == Ok::<Seq<Seq<char>>, Seq<char>>(d.object_refs@.map_values(|r: ObjectRef| r.object_id@))
    &&& d.local_states@.len() == states.len()
    &&& forall|k: int| 0 <= k < states.len() ==> local_state_parsed(states[k], #[trigger] d.local_states@[k])
    &&& match local_object_json(c) {
        None => d.local_object is None,
        Some(o) => d.local_object matches Some(x) && object_parsed(o, false, x),
    }
    &&& d.ctn_node_id matches Some(x) && x == n
}

/// The validations a well-formed criterion defers, in order: its state and
/// object references, its local states, its local object.
pub open spec fn criterion_json_deferrals(c: JsonValue) -> Seq<Deferral> {
    let ct = json_get_str(c, "criterion_type"@)->Some_0;
    ref_deferrals(ValidationType::StateReference, ct, state_ids_outcome(c)->Ok_0, "global state"@)
        + ref_deferrals(ValidationType::ObjectReference, ct, object_ids_outcome(c)->Ok_0, "global object"@)
        + local_states_deferrals(criterion_local_states(c), ct)
        + match local_object_json(c) {
            Some(o) => local_object_deferrals(o, ct),
            None => Seq::empty(),
        }
}

/// The non-fatal errors a well-formed criterion records: those of the
/// elements of its local object.
pub open spec fn criterion_notes(c: JsonValue) -> Seq<Seq<char>> {
    match local_object_json(c) {
        Some(o) => object_element_notes(object_items(o), json_get_str(o, "id"@)->Some_0),
        None => Seq::empty(),
    }
}

/// Parse a criterion (CTN block) numbered `ctn_node_id`. Its references to
/// global symbols and the variables its local elements use are deferred for
/// validation once every symbol is known.
fn parse_criterion_from_json(criterion_json: &JsonValue, ctn_node_id: CtnNodeId, context: &mut ResolutionContext)
    -> (res: Result<CriterionDeclaration, ResolutionError>)
    ensures
        match res {
            Ok(d) => criterion_error(*criterion_json) is None && criterion_parsed(*criterion_json, ctn_node_id as int, d)
                && deferrals(final(context).deferred_validations@) == deferrals(old(context).deferred_validations@)
                    + criterion_json_deferrals(*criterion_json)
                && views(final(context).parsing_errors@) == views(old(context).parsing_errors@)
                    + criterion_notes(*criterion_json),
            Err(e) => e == (ResolutionError::InvalidInput { message: e->message })
                && criterion_error(*criterion_json) == Some(e->message@),
        },
        *final(context) == (ResolutionContext {
            deferred_validations: final(context).deferred_validations,
            parsing_errors: final(context).parsing_errors,
            ..*old(context)
        }),
{
    let ct = match criterion_json.get_str("criterion_type") {
        Some(t) => t,
        None => {
            return Err(invalid(to_owned_string("Criterion missing criterion_type")));
        },
    };
    if !is_valid_identifier(ct) {
        return Err(invalid(concat3("Invalid criterion type identifier format: '", ct, "'")));
    }
    let test = parse_test_specification(criterion_json)?;
    let ghost d0 = deferrals(context.deferred_validations@);
    let ghost e0 = views(context.parsing_errors@);
    let state_refs = parse_state_refs(criterion_json, ct, context)?;
    let object_refs = parse_object_refs(criterion_json, ct, context)?;
    let ghost d2 = deferrals(context.deferred_validations@);
    let local_states = parse_local_states(criterion_json, ct, context)?;
    let ghost d3 = deferrals(context.deferred_validations@);
    let local_object = parse_local_object(criterion_json, ct, context)?;
    if state_refs.len() == 0 && object_refs.len() == 0 && local_states.len() == 0 && local_object.is_none() {
        let mut m = concat3("CTN '", ct, "' must have at least one state reference, object reference, or local element");
        return Err(invalid(m));
    }
    proof {
        match local_object_json(*criterion_json) {
            Some(o) => {},
            None => {
                assert(deferrals(context.deferred_validations@) =~= d3 + Seq::<Deferral>::empty());
                assert(views(context.parsing_errors@) =~= e0 + Seq::<Seq<char>>::empty());
            },
        }
        assert(deferrals(context.deferred_validations@) =~= d0 + criterion_json_deferrals(*criterion_json));
    }
    Ok(CriterionDeclaration {
        criterion_type: to_owned_string(ct),
        test,
        state_refs,
        object_refs,
        local_states,
        local_object,
        ctn_node_id: Some(ctn_node_id),
    })
}

// ---------------------------------------------------------------------------
// Criteria trees (CRI blocks)
// ---------------------------------------------------------------------------

/// How deep CRI blocks may nest.
pub const MAX_NESTING_DEPTH: usize = 10;

/// What reading a part of the criteria gives: the first error, if any; the
/// criterion counter afterwards; and, when there is no error, the validations
/// deferred and the non-fatal errors recorded.
pub struct CriteriaRun {
    pub err: Option<Seq<char>>,
    pub count: int,
    pub defs: Seq<Deferral>,
    pub notes: Seq<Seq<char>>,
}

/// A run that failed with `m` at counter `c`.
pub open spec fn failed(m: Seq<char>, c: int) -> CriteriaRun {
    CriteriaRun { err: Some(m), count: c, defs: Seq::empty(), notes: Seq::empty() }
}

/// The message of a block nested deeper than allowed.
pub open spec fn too_deep(d: int) -> Seq<char> {
    "Criteria nesting too deep: "@ + decimal(d as nat) + " > 10"@
}

/// The logical operator a block names; `AND` when absent or not a string.
pub open spec fn block_op_name(j: JsonValue) -> Seq<char> {
    match json_get_str(j, "logical_op"@) {
        Some(s) => s,
        None => "AND"@,
    }
}

/// The logical operator a spelling names.
pub open spec fn logical_op_of(s: Seq<char>) -> Option<LogicalOp> {
    if s == "AND"@ {
        Some(LogicalOp::And)
    } else if s == "OR"@ {
        Some(LogicalOp::Or)
    } else {
        None
    }
}

/// Whether a block is negated; not when absent or not a boolean.
pub open spec fn block_negate(j: JsonValue) -> bool {
    match json_get(j, "negate"@) {
        Some(JsonValue::Bool(b)) => b,
        _ => false,
    }
}

/// The content items of a block.
pub open spec fn block_items(j: JsonValue) -> Seq<JsonValue> {
    json_items(json_get(j, "content"@))
}

/// Reading the block `j` at nesting depth `d` with the counter at `c`.
pub open spec fn tree_run(j: JsonValue, c: int, d: int) -> CriteriaRun
    decreases 11 - d, block_items(j).len() + 1,
{
    if d > 10 {
        failed(too_deep(d), c)
    } else if logical_op_of(block_op_name(j)) is None {
        failed("Invalid logical operator: "@ + block_op_name(j), c)
    } else if !(json_get(j, "content"@) matches Some(JsonValue::Array(_))) {
        failed("Criteria missing content"@, c)
    } else {
        content_run(block_items(j), c, d)
    }
}

/// Reading the content items of a block at depth `d`, in order, up to the
/// first error.
pub open spec fn content_run(items: Seq<JsonValue>, c: int, d: int) -> CriteriaRun
    decreases 11 - d, items.len(),
{
    if items.len() == 0 {
        CriteriaRun { err: None, count: c, defs: Seq::empty(), notes: Seq::empty() }
    } else {
        let pre = content_run(items.drop_last(), c, d);
        if pre.err is Some {
            pre
        } else {
            let r = item_run(items.last(), pre.count, d, items.len() - 1);
            CriteriaRun { err: r.err, count: r.count, defs: pre.defs + r.defs, notes: pre.notes + r.notes }
        }
    }
}

/// Reading the content item at position `idx` of a block at depth `d`: a
/// nested block, a criterion, or neither.
pub open spec fn item_run(e: JsonValue, c: int, d: int, idx: int) -> CriteriaRun
    decreases 11 - d, 0int,
{
    if json_get(e, "Criteria"@) is Some {
        if d + 1 > 10 {
            failed(too_deep(d + 1), c)
        } else {
            tree_run(json_get(e, "Criteria"@)->Some_0, c, d + 1)
        }
    } else if json_get(e, "Criterion"@) is Some {
        let cj = json_get(e, "Criterion"@)->Some_0;
        match criterion_error(cj) {
            Some(m) => failed(m, c),
            None => CriteriaRun { err: None, count: c + 1, defs: criterion_json_deferrals(cj), notes: criterion_notes(cj) },
        }
    } else {
        failed("Unknown criteria content type at index "@ + decimal(idx as nat), c)
    }
}

/// `t` is the tree that the block `j`, read at depth `d` with the counter at
/// `c`, gives. At depth 0 a block holding a single criterion gives that
/// criterion itself.
pub open spec fn tree_parsed(j: JsonValue, c: int, d: int, t: CriteriaTree) -> bool
    decreases 11 - d, block_items(j).len() + 1,
{
    let items = block_items(j);
    if d > 10 {
        false
    } else if d == 0 && items.len() == 1 && json_get(items[0], "Criteria"@) is None {
        criterion_node_parsed(json_get(items[0], "Criterion"@)->Some_0, c, t)
    } else {
        t matches CriteriaTree::Block { logical_op, negate, children }
            && logical_op_of(block_op_name(j)) == Some(logical_op)
            && negate == block_negate(j)
            && content_parsed(items, c, d, children@)
    }
}

/// `ch` are the trees that the content items of a block give, in order.
pub open spec fn content_parsed(items: Seq<JsonValue>, c: int, d: int, ch: Seq<CriteriaTree>) -> bool
    decreases 11 - d, items.len(),
{
    if items.len() == 0 {
        ch.len() == 0
    } else {
        &&& ch.len() == items.len()
        &&& content_parsed(items.drop_last(), c, d, ch.drop_last())
        &&& item_parsed(items.last(), content_run(items.drop_last(), c, d).count, d, ch.last())
    }
}

/// `t` is the tree that a content item gives.
pub open spec fn item_parsed(e: JsonValue, c: int, d: int, t: CriteriaTree) -> bool
    decreases 11 - d, 0int,
{
    if json_get(e, "Criteria"@) is Some {
        if d + 1 > 10 {
            false
        } else {
            tree_parsed(json_get(e, "Criteria"@)->Some_0, c, d + 1, t)
        }
    } else {
        criterion_node_parsed(json_get(e, "Criterion"@)->Some_0, c, t)
    }
}

/// A criterion node read with the counter at `c`: its declaration is numbered
/// `c` and the node `c + 1`.
pub open spec fn criterion_node_parsed(cj: JsonValue, c: int, t: CriteriaTree) -> bool {
    t matches CriteriaTree::Criterion { declaration, node_id }
        && node_id == c + 1 && criterion_parsed(cj, c, declaration)
}

/// The counter never goes down.
pub proof fn lemma_run_count(j: JsonValue, c: int, d: int)
    ensures
        tree_run(j, c, d).count >= c,
    decreases 11 - d, block_items(j).len() + 1,
{
    if d <= 10 && logical_op_of(block_op_name(j)) is Some && json_get(j, "content"@) matches Some(JsonValue::Array(_)) {
        lemma_content_count(block_items(j), c, d);
    }
}

/// The counter never goes down over content items.
pub proof fn lemma_content_count(items: Seq<JsonValue>, c: int, d: int)
    ensures
        content_run(items, c, d).count >= c,
        items.len() > 0 ==> content_run(items, c, d).count >= content_run(items.drop_last(), c, d).count,
    decreases 11 - d, items.len(),
{
    if items.len() > 0 {
        lemma_content_count(items.drop_last(), c, d);
        let pre = content_run(items.drop_last(), c, d);
        if pre.err is None {
            lemma_item_count(items.last(), pre.count, d, items.len() - 1);
        }
    }
}

/// The counter never goes down over a content item.
pub proof fn lemma_item_count(e: JsonValue, c: int, d: int, idx: int)
    ensures
        item_run(e, c, d, idx).count >= c,
    decreases 11 - d, 0int,
{
    if json_get(e, "Criteria"@) is Some && d + 1 <= 10 {
        lemma_run_count(json_get(e, "Criteria"@)->Some_0, c, d + 1);
    }
}

/// The counter after a prefix of the content is at most the counter after
/// all of it.
proof fn lemma_content_prefix_count(items: Seq<JsonValue>, k: int, c: int, d: int)
    requires
        0 <= k <= items.len(),
    ensures
        content_run(items.subrange(0, k), c, d).count <= content_run(items, c, d).count,
    decreases items.len() - k,
{
    if k < items.len() {
        lemma_content_prefix_count(items, k + 1, c, d);
        assert(items.subrange(0, k + 1).drop_last() =~= items.subrange(0, k));
        lemma_content_count(items.subrange(0, k + 1), c, d);
    } else {
        assert(items.subrange(0, k) =~= items);
    }
}

/// An error in a prefix of the content is the error of the whole content.
proof fn lemma_content_prefix_err(items: Seq<JsonValue>, k: int, c: int, d: int)
    requires
        0 <= k <= items.len(),
        content_run(items.subrange(0, k), c, d).err is Some,
    ensures
        content_run(items, c, d) == content_run(items.subrange(0, k), c, d),
    decreases items.len() - k,
{
    if k < items.len() {
        assert(items.subrange(0, k + 1).drop_last() =~= items.subrange(0, k));
        lemma_content_prefix_err(items, k + 1, c, d);
    } else {
        assert(items.subrange(0, k) =~= items);
    }
}

/// Read a CRI block at nesting depth `depth`. Criteria are numbered from the
/// counter on: a criterion's declaration takes the counter's value, the
/// counter goes up, and the node takes the new value.
fn build_criteria_tree(criteria_json: &JsonValue, ctn_node_id_counter: &mut CtnNodeId, depth: usize,
    context: &mut ResolutionContext) -> (res: Result<CriteriaTree, ResolutionError>)
    requires
        tree_run(*criteria_json, *old(ctn_node_id_counter) as int, depth as int).count <= usize::MAX,
    ensures
        match res {
            Ok(t) => {
                let r = tree_run(*criteria_json, *old(ctn_node_id_counter) as int, depth as int);
                &&& r.err is None
                &&& *final(ctn_node_id_counter) == r.count
                &&& tree_parsed(*criteria_json, *old(ctn_node_id_counter) as int, depth as int, t)
                &&& deferrals(final(context).deferred_validations@) == deferrals(old(context).deferred_validations@) + r.defs
                &&& views(final(context).parsing_errors@) == views(old(context).parsing_errors@) + r.notes
            },
            Err(e) => e == (ResolutionError::InvalidInput { message: e->message })
                && tree_run(*criteria_json, *old(ctn_node_id_counter) as int, depth as int).err == Some(e->message@),
        },
        *final(context) == (ResolutionContext {
            deferred_validations: final(context).deferred_validations,
            parsing_errors: final(context).parsing_errors,
            ..*old(context)
        }),
    decreases 11 - depth,
{
    if depth > MAX_NESTING_DEPTH {
        let mut m = concat2("Criteria nesting too deep: ", usize_to_string(depth).as_str());
        m.append(" > 10");
        return Err(invalid(m));
    }
    let op_name = match criteria_json.get_str("logical_op") {
        Some(s) => s,
        None => "AND",
    };
    let logical_op = match LogicalOp::from_str(op_name) {
        Some(op) => op,
        None => {
            return Err(invalid(concat2("Invalid logical operator: ", op_name)));
        },
    };
    let negate = match criteria_json.get("negate") {
        Some(n) => match n.as_bool() {
            Some(b) => b,
            None => false,
        },
        None => false,
    };
    let items = match criteria_json.get("content") {
        Some(v) => match v.as_array() {
            Some(a) => a,
            None => {
                return Err(invalid(to_owned_string("Criteria missing content")));
            },
        },
        None => {
            return Err(invalid(to_owned_string("Criteria missing content")));
        },
    };
    let ghost all = block_items(*criteria_json);
    let ghost c0 = *ctn_node_id_counter as int;
    let ghost d0 = deferrals(context.deferred_validations@);
    let ghost e0 = views(context.parsing_errors@);
    assert(items@ == all);
    let mut children: Vec<CriteriaTree> = Vec::new();
    let mut i: usize = 0;
    proof {
        assert(all.subrange(0, 0) =~= Seq::<JsonValue>::empty());
        assert(deferrals(context.deferred_validations@) =~= d0 + Seq::<Deferral>::empty());
        assert(views(context.parsing_errors@) =~= e0 + Seq::<Seq<char>>::empty());
    }
    while i < items.len()
        invariant
            i <= items@.len(),
            items@ == all,
            all == block_items(*criteria_json),
            depth <= 10,
            c0 == *old(ctn_node_id_counter) as int,
            d0 == deferrals(old(context).deferred_validations@),
            e0 == views(old(context).parsing_errors@),
            content_run(all, c0, depth as int).count <= usize::MAX,
            tree_run(*criteria_json, c0, depth as int) == content_run(all, c0, depth as int),
            content_run(all.subrange(0, i as int), c0, depth as int).err is None,
            *ctn_node_id_counter == content_run(all.subrange(0, i as int), c0, depth as int).count,
            content_parsed(all.subrange(0, i as int), c0, depth as int, children@),
            deferrals(context.deferred_validations@) == d0 + content_run(all.subrange(0, i as int), c0, depth as int).defs,
            views(context.parsing_errors@) == e0 + content_run(all.subrange(0, i as int), c0, depth as int).notes,
            *context == (ResolutionContext {
                deferred_validations: context.deferred_validations,
                parsing_errors: context.parsing_errors,
                ..*old(context)
            }),
        decreases items@.len() - i,
    {
        let ghost sub = all.subrange(0, i + 1);
        let ghost pre = all.subrange(0, i as int);
        let ghost cnt = *ctn_node_id_counter as int;
        proof {
            assert(sub.drop_last() =~= pre);
            assert(sub.last() == all[i as int]);
            lemma_content_prefix_count(all, i + 1, c0, depth as int);
            lemma_item_count(all[i as int], cnt, depth as int, i as int);
        }
        let ghost dd = deferrals(context.deferred_validations@);
        let ghost ee = views(context.parsing_errors@);
        let item = &items[i];
        if let Some(nested) = item.get("Criteria") {
            match build_criteria_tree(nested, ctn_node_id_counter, depth + 1, context) {
                Ok(t) => {
                    let ghost prev = children@;
                    proof {
                        if depth + 1 > 10 {
                            assert(tree_run(*nested, cnt, depth + 1).err is Some);
                        }
                        assert(item_parsed(all[i as int], cnt, depth as int, t));
                    }
                    children.push(t);
                    proof {
                        assert(children@.drop_last() =~= prev);
                        assert(children@.last() == t);
                        assert(content_parsed(sub, c0, depth as int, children@));
                        assert(deferrals(context.deferred_validations@) =~= d0 + content_run(sub, c0, depth as int).defs);
                        assert(views(context.parsing_errors@) =~= e0 + content_run(sub, c0, depth as int).notes);
                    }
                },
                Err(e) => {
                    proof {
                        lemma_content_prefix_err(all, i + 1, c0, depth as int);
                    }
                    return Err(e);
                },
            }
        } else if let Some(cj) = item.get("Criterion") {
            match parse_criterion_from_json(cj, *ctn_node_id_counter, context) {
                Ok(declaration) => {
                    *ctn_node_id_counter = *ctn_node_id_counter + 1;
                    let ghost prev = children@;
                    let node = CriteriaTree::Criterion { declaration, node_id: *ctn_node_id_counter };
                    proof {
                        assert(item_parsed(all[i as int], cnt, depth as int, node));
                    }
                    children.push(node);
                    proof {
                        assert(children@.drop_last() =~= prev);
                        assert(children@.last() == node);
                        assert(content_parsed(sub, c0, depth as int, children@));
                        assert(deferrals(context.deferred_validations@) =~= d0 + content_run(sub, c0, depth as int).defs);
                        assert(views(context.parsing_errors@) =~= e0 + content_run(sub, c0, depth as int).notes);
                    }
                },
                Err(e) => {
                    proof {
                        lemma_content_prefix_err(all, i + 1, c0, depth as int);
                    }
                    return Err(e);
                },
            }
        } else {
            proof {
                lemma_content_prefix_err(all, i + 1, c0, depth as int);
            }
            return Err(invalid(concat2("Unknown criteria content type at index ", usize_to_string(i).as_str())));
        }
        i = i + 1;
    }
    proof {
        assert(all.subrange(0, all.len() as int) =~= all);
    }
    if children.len() == 1 && depth == 0 {
        let is_criterion = match &children[0] {
            CriteriaTree::Criterion { .. } => true,
            _ => false,
        };
        if is_criterion {
            let ghost whole = children@;
            proof {
                assert(children@.drop_last() =~= Seq::<CriteriaTree>::empty());
                assert(all.drop_last() =~= Seq::<JsonValue>::empty());
                assert(content_run(all.drop_last(), c0, 0).count == c0);
                assert(item_parsed(all[0], c0, 0, children@[0]));
            }
            let t = children.pop().unwrap();
            proof {
                assert(t == whole[0]);
            }
            return Ok(t);
        }
        proof {
            assert(all.drop_last() =~= Seq::<JsonValue>::empty());
            assert(content_run(all.drop_last(), c0, 0).count == c0);
            assert(item_parsed(all[0], c0, 0, children@[0]));
        }
    }
    Ok(CriteriaTree::Block { logical_op, negate, children })
}

/// The top-level criteria blocks of a definition.
pub open spec fn definition_blocks(ast: JsonValue) -> Seq<JsonValue> {
    json_items(json_get(json_get(ast, "definition"@)->Some_0, "criteria"@))
}

/// Reading the top-level blocks in order, each at depth 0, up to the first error.
pub open spec fn roots_run(blocks: Seq<JsonValue>, c: int) -> CriteriaRun
    decreases blocks.len(),
{
    if blocks.len() == 0 {
        CriteriaRun { err: None, count: c, defs: Seq::empty(), notes: Seq::empty() }
    } else {
        let pre = roots_run(blocks.drop_last(), c);
        if pre.err is Some {
            pre
        } else {
            let r = tree_run(blocks.last(), pre.count, 0);
            CriteriaRun { err: r.err, count: r.count, defs: pre.defs + r.defs, notes: pre.notes + r.notes }
        }
    }
}

/// The position of the first top-level block that fails.
pub open spec fn roots_fail_at(blocks: Seq<JsonValue>, c: int) -> int
    decreases blocks.len(),
{
    if blocks.len() == 0 {
        0
    } else if roots_run(blocks.drop_last(), c).err is Some {
        roots_fail_at(blocks.drop_last(), c)
    } else {
        blocks.len() - 1
    }
}

/// `trees` are the trees the top-level blocks give, in order.
pub open spec fn roots_parsed(blocks: Seq<JsonValue>, c: int, trees: Seq<CriteriaTree>) -> bool
    decreases blocks.len(),
{
    if blocks.len() == 0 {
        trees.len() == 0
    } else {
        &&& trees.len() == blocks.len()
        &&& roots_parsed(blocks.drop_last(), c, trees.drop_last())
        &&& tree_parsed(blocks.last(), roots_run(blocks.drop_last(), c).count, 0, trees.last())
    }
}

/// How many criteria reading the definition numbers.
pub open spec fn criteria_count(ast: JsonValue) -> int {
    if json_get(ast, "definition"@) is Some { roots_run(definition_blocks(ast), 0).count } else { 0 }
}

/// The counter never goes down over the top-level blocks.
proof fn lemma_roots_count(blocks: Seq<JsonValue>, c: int)
    ensures
        blocks.len() > 0 ==> roots_run(blocks, c).count >= roots_run(blocks.drop_last(), c).count,
{
    if blocks.len() > 0 {
        let pre = roots_run(blocks.drop_last(), c);
        if pre.err is None {
            lemma_run_count(blocks.last(), pre.count, 0);
        }
    }
}

/// The counter after some top-level blocks is at most the counter after all.
proof fn lemma_roots_prefix_count(blocks: Seq<JsonValue>, k: int, c: int)
    requires
        0 <= k <= blocks.len(),
    ensures
        roots_run(blocks.subrange(0, k), c).count <= roots_run(blocks, c).count,
    decreases blocks.len() - k,
{
    if k < blocks.len() {
        lemma_roots_prefix_count(blocks, k + 1, c);
        assert(blocks.subrange(0, k + 1).drop_last() =~= blocks.subrange(0, k));
        lemma_roots_count(blocks.subrange(0, k + 1), c);
    } else {
        assert(blocks.subrange(0, k) =~= blocks);
    }
}

/// An error among the first top-level blocks is the error of all of them.
proof fn lemma_roots_prefix_err(blocks: Seq<JsonValue>, k: int, c: int)
    requires
        0 <= k <= blocks.len(),
        roots_run(blocks.subrange(0, k), c).err is Some,
    ensures
        roots_run(blocks, c) == roots_run(blocks.subrange(0, k), c),
        roots_fail_at(blocks, c) == roots_fail_at(blocks.subrange(0, k), c),
    decreases blocks.len() - k,
{
    if k < blocks.len() {
        assert(blocks.subrange(0, k + 1).drop_last() =~= blocks.subrange(0, k));
        lemma_roots_prefix_err(blocks, k + 1, c);
    } else {
        assert(blocks.subrange(0, k) =~= blocks);
    }
}

/// Read the criteria of a definition as trees, one per top-level CRI block,
/// joined by AND. Criteria are numbered from 0 in reading order. The first
/// block that fails stops the reading: its error is recorded, naming its
/// position, and returned.
pub fn extract_criteria_from_json(ast_json: &JsonValue, context: &mut ResolutionContext)
    -> (res: Result<CriteriaRoot, ResolutionError>)
    requires
        criteria_count(*ast_json) <= usize::MAX,
    ensures
        match res {
            Ok(root) => {
                let r = roots_run(definition_blocks(*ast_json), 0);
                &&& json_get(*ast_json, "definition"@) is Some
                &&& r.err is None
                &&& roots_parsed(definition_blocks(*ast_json), 0, root.trees@)
                &&& root.root_logical_op == LogicalOp::And
                &&& deferrals(final(context).deferred_validations@) == deferrals(old(context).deferred_validations@) + r.defs
                &&& views(final(context).parsing_errors@) == views(old(context).parsing_errors@) + r.notes
            },
            Err(e) => e == (ResolutionError::InvalidInput { message: e->message }) && match json_get(*ast_json, "definition"@) {
                None => e->message@ == "No definition found in AST"@ && *final(context) == *old(context),
                Some(_) => {
                    &&& roots_run(definition_blocks(*ast_json), 0).err == Some(e->message@)
                    &&& final(context).parsing_errors@.len() > 0
                    &&& final(context).parsing_errors@.last()@ == "Failed to build criteria tree at index "@
                        + decimal(roots_fail_at(definition_blocks(*ast_json), 0) as nat) + ": "@
                        + invalid_input_debug(e->message@)
                },
            },
        },
        *final(context) == (ResolutionContext {
            deferred_validations: final(context).deferred_validations,
            parsing_errors: final(context).parsing_errors,
            ..*old(context)
        }),
{
    let definition = match ast_json.get("definition") {
        Some(d) => d,
        None => {
            return Err(invalid(to_owned_string("No definition found in AST")));
        },
    };
    let empty: Vec<JsonValue> = Vec::new();
    let blocks = match definition.get("criteria") {
        Some(v) => match v.as_array() {
            Some(a) => a,
            None => &empty,
        },
        None => &empty,
    };
    let ghost all = definition_blocks(*ast_json);
    let ghost d0 = deferrals(context.deferred_validations@);
    let ghost e0 = views(context.parsing_errors@);
    assert(blocks@ == all);
    let mut counter: CtnNodeId = 0;
    let mut trees: Vec<CriteriaTree> = Vec::new();
    let mut i: usize = 0;
    proof {
        assert(all.subrange(0, 0) =~= Seq::<JsonValue>::empty());
        assert(deferrals(context.deferred_validations@) =~= d0 + Seq::<Deferral>::empty());
        assert(views(context.parsing_errors@) =~= e0 + Seq::<Seq<char>>::empty());
    }
    while i < blocks.len()
        invariant
            i <= blocks@.len(),
            blocks@ == all,
            all == definition_blocks(*ast_json),
            json_get(*ast_json, "definition"@) is Some,
            d0 == deferrals(old(context).deferred_validations@),
            e0 == views(old(context).parsing_errors@),
            roots_run(all, 0).count <= usize::MAX,
            roots_run(all.subrange(0, i as int), 0).err is None,
            counter == roots_run(all.subrange(0, i as int), 0).count,
            roots_parsed(all.subrange(0, i as int), 0, trees@),
            deferrals(context.deferred_validations@) == d0 + roots_run(all.subrange(0, i as int), 0).defs,
            views(context.parsing_errors@) == e0 + roots_run(all.subrange(0, i as int), 0).notes,
            *context == (ResolutionContext {
                deferred_validations: context.deferred_validations,
                parsing_errors: context.parsing_errors,
                ..*old(context)
            }),
        decreases blocks@.len() - i,
    {
        let ghost sub = all.subrange(0, i + 1);
        proof {
            assert(sub.drop_last() =~= all.subrange(0, i as int));
            assert(sub.last() == all[i as int]);
            lemma_roots_prefix_count(all, i + 1, 0);
        }
        match build_criteria_tree(&blocks[i], &mut counter, 0, context) {
            Ok(t) => {
                let ghost prev = trees@;
                trees.push(t);
                proof {
                    assert(trees@.drop_last() =~= prev);
                    assert(deferrals(context.deferred_validations@) =~= d0 + roots_run(sub, 0).defs);
                    assert(views(context.parsing_errors@) =~= e0 + roots_run(sub, 0).notes);
                }
            },
            Err(e) => {
                let mut note = concat2("Failed to build criteria tree at index ", usize_to_string(i).as_str());
                note.append(": ");
                let shown = match &e {
                    ResolutionError::InvalidInput { message } => debug_invalid_input(message.as_str()),
                    _ => crate::resolution::error::debug_resolution_error(&e),
                };
                note.append(shown.as_str());
                context.add_parsing_error(note);
                proof {
                    lemma_roots_prefix_err(all, i + 1, 0);
                    assert(roots_fail_at(sub, 0) == i);
                }
                return Err(e);
            },
        }
        i = i + 1;
    }
    proof {
        assert(all.subrange(0, all.len() as int) =~= all);
    }
    Ok(CriteriaRoot { trees, root_logical_op: LogicalOp::And })
}

/// Reading a block numbers its criteria consecutively: the counter goes up
/// by the number of criteria in the tree it gives.
pub proof fn lemma_tree_numbering(j: JsonValue, c: int, d: int, t: CriteriaTree)
    requires
        tree_run(j, c, d).err is None,
        tree_parsed(j, c, d, t),
    ensures
        tree_criteria(t).len() == tree_run(j, c, d).count - c,
    decreases 11 - d, block_items(j).len() + 1,
{
    let items = block_items(j);
    if d == 0 && items.len() == 1 && json_get(items[0], "Criteria"@) is None {
        assert(items.drop_last() =~= Seq::<JsonValue>::empty());
        assert(items.last() == items[0]);
        assert(tree_criteria(t) =~= seq![t->declaration]);
    } else {
        lemma_content_numbering(items, c, d, t->children@);
    }
}

/// Reading content items numbers their criteria consecutively.
pub proof fn lemma_content_numbering(items: Seq<JsonValue>, c: int, d: int, ch: Seq<CriteriaTree>)
    requires
        content_run(items, c, d).err is None,
        content_parsed(items, c, d, ch),
    ensures
        forest_criteria(ch).len() == content_run(items, c, d).count - c,
    decreases 11 - d, items.len(),
{
    if items.len() > 0 {
        let pre = content_run(items.drop_last(), c, d);
        lemma_content_numbering(items.drop_last(), c, d, ch.drop_last());
        lemma_item_numbering(items.last(), pre.count, d, items.len() - 1, ch.last());
    }
}

/// Reading one content item numbers its criteria consecutively.
pub proof fn lemma_item_numbering(e: JsonValue, c: int, d: int, idx: int, t: CriteriaTree)
    requires
        item_run(e, c, d, idx).err is None,
        item_parsed(e, c, d, t),
    ensures
        tree_criteria(t).len() == item_run(e, c, d, idx).count - c,
    decreases 11 - d, 0int,
{
    if json_get(e, "Criteria"@) is Some {
        lemma_tree_numbering(json_get(e, "Criteria"@)->Some_0, c, d + 1, t);
    } else {
        assert(tree_criteria(t) =~= seq![t->declaration]);
    }
}

/// Reading the definition numbers its criteria from 0: the count is the
/// number of criteria in the trees.
pub proof fn lemma_roots_numbering(blocks: Seq<JsonValue>, c: int, trees: Seq<CriteriaTree>)
    requires
        roots_run(blocks, c).err is None,
        roots_parsed(blocks, c, trees),
    ensures
        forest_criteria(trees).len() == roots_run(blocks, c).count - c,
    decreases blocks.len(),
{
    if blocks.len() > 0 {
        let pre = roots_run(blocks.drop_last(), c);
        lemma_roots_numbering(blocks.drop_last(), c, trees.drop_last());
        lemma_tree_numbering(blocks.last(), pre.count, 0, trees.last());
    }
}

} // verus!
