//! SET operations: dependency collection and structural checks.

use vstd::prelude::*;
use crate::strings::{concat2, concat3, concat4, concat5, to_owned_string, usize_to_string, decimal,
    is_valid_identifier, spec_is_valid_identifier};
use crate::json::{JsonValue, json_get, json_get_str};
use crate::types::set::{SetOperation, SetOperand, SetOperationType, operands_object_refs, operands_set_refs,
    operands_var_refs, filter_refs, operand_count_ok, operand_count_message, set_operation_name};
use crate::types::filter::FilterSpec;
use crate::types::object::ObjectDeclaration;
use crate::types::resolution_context::{ResolutionContext, ValidationType, DeferredValidation, deferrals, deferral,
    deferrals_to, context_wf};
use crate::resolution::error::{ResolutionError, resolution_error_debug, debug_resolution_error};
use crate::resolution::dag::views;
use crate::resolution::set_expansion::dedup_ids;
use crate::parser::filter::{parse_filter_from_set_context, filter_error, filter_action_outcome, filter_refs_outcome};

pub mod error;

verus! {

/// Whether the inline objects of the SET refer to variables.
pub fn has_variable_references_in_set(set_operation: &SetOperation) -> (res: bool)
    ensures
        res == (operands_var_refs(set_operation.operands@).len() > 0),
{
    set_operation.has_variable_references()
}

/// The variables referenced by the inline objects of the SET, in order.
pub fn get_variable_references_from_set(set_operation: &SetOperation) -> (res: Vec<String>)
    ensures
        res@.map_values(|r: String| r@) == operands_var_refs(set_operation.operands@),
{
    set_operation.get_variable_references()
}

/// The global objects the operands of the SET name, in order.
pub fn get_object_references_from_set(set_operation: &SetOperation) -> (res: Vec<String>)
    ensures
        res@.map_values(|r: String| r@) == operands_object_refs(set_operation.operands@),
{
    set_operation.get_object_references()
}

/// The SETs the operands of the SET name, in order.
pub fn get_set_references_from_set(set_operation: &SetOperation) -> (res: Vec<String>)
    ensures
        res@.map_values(|r: String| r@) == operands_set_refs(set_operation.operands@),
{
    set_operation.get_set_references()
}

/// The states named by the filter of the SET, in order.
pub fn get_filter_dependencies_from_set(set_operation: &SetOperation) -> (res: Vec<String>)
    ensures
        res@.map_values(|r: String| r@) == filter_refs(set_operation.filter),
{
    set_operation.get_filter_state_dependencies()
}

/// Structural check of a SET: its operand count suits its kind.
pub fn validate_set_operation_structure(set_operation: &SetOperation) -> (res: Result<(), ResolutionError>)
    ensures
        res is Ok <==> operand_count_ok(set_operation.operation, set_operation.operands@.len()),
        res matches Err(e) ==> (e matches ResolutionError::InvalidInput { message }
            && message@ == "Set '"@ + set_operation.set_id@ + "' structure validation failed: "@
                + operand_count_message(set_operation.operation, set_operation.operands@.len())),
{
    match set_operation.validate() {
        Err(msg) => {
            let mut message = concat3("Set '", set_operation.set_id.as_str(), "' structure validation failed: ");
            message.append(msg.as_str());
            Err(ResolutionError::InvalidInput { message })
        },
        Ok(()) => Ok(()),
    }
}

/// The deferred validations that a SET contributes: the objects and SETs its
/// operands name, the states of its filter, and the variables of its inline
/// objects.
pub open spec fn set_deferrals(s: SetOperation) -> Seq<(ValidationType, Seq<char>, Seq<char>, Seq<char>)> {
    let id = s.set_id@;
    deferrals_to(ValidationType::ObjectReference, "SET:"@ + id, operands_object_refs(s.operands@),
        "Set '"@ + id + "' depends on object"@)
    + deferrals_to(ValidationType::SetReference, "SET:"@ + id, operands_set_refs(s.operands@),
        "Set '"@ + id + "' depends on set"@)
    + deferrals_to(ValidationType::FilterStateReference, "SET:"@ + id + ":FILTER"@, filter_refs(s.filter),
        "Set '"@ + id + "' filter depends on state"@)
    + deferrals_to(ValidationType::VariableReference, "SET:"@ + id, operands_var_refs(s.operands@),
        "Set '"@ + id + "' contains variable reference"@)
}

/// Record the references of a SET as deferred validations.
pub fn collect_set_dependencies(set_operation: &SetOperation, context: &mut ResolutionContext)
    ensures
        deferrals(final(context).deferred_validations@)
            == deferrals(old(context).deferred_validations@) + set_deferrals(*set_operation),
        *final(context) == (ResolutionContext { deferred_validations: final(context).deferred_validations, ..*old(context) }),
{
    let ghost d0 = deferrals(context.deferred_validations@);
    let id = set_operation.set_id.as_str();
    let source = concat2("SET:", id);
    let objects = set_operation.get_object_references();
    let c1 = concat3("Set '", id, "' depends on object");
    context.defer_all(ValidationType::ObjectReference, source.as_str(), &objects, c1.as_str());
    let sets = set_operation.get_set_references();
    let c2 = concat3("Set '", id, "' depends on set");
    context.defer_all(ValidationType::SetReference, source.as_str(), &sets, c2.as_str());
    let states = set_operation.get_filter_state_dependencies();
    let fsource = concat3("SET:", id, ":FILTER");
    let c3 = concat3("Set '", id, "' filter depends on state");
    context.defer_all(ValidationType::FilterStateReference, fsource.as_str(), &states, c3.as_str());
    let vars = set_operation.get_variable_references();
    let c4 = concat3("Set '", id, "' contains variable reference");
    context.defer_all(ValidationType::VariableReference, source.as_str(), &vars, c4.as_str());
    proof {
        assert(deferrals(context.deferred_validations@) =~= d0 + set_deferrals(*set_operation));
    }
}

/// A deferred validation as plain values.
pub type Deferral = (ValidationType, Seq<char>, Seq<char>, Seq<char>);

/// An operand as plain values: 0 for an object reference, 1 for a SET
/// reference, 2 for an inline object, with the identifier it carries.
pub open spec fn operand_view(o: SetOperand) -> (u8, Seq<char>) {
    match o {
        SetOperand::ObjectRef(r) => (0u8, r@),
        SetOperand::SetRef(r) => (1u8, r@),
        SetOperand::InlineObject(d) => (2u8, d.identifier@),
    }
}

/// An inline object operand read from JSON is local and has no elements.
pub open spec fn operand_well_made(o: SetOperand) -> bool {
    match o {
        SetOperand::InlineObject(d) => d.elements@.len() == 0 && !d.is_global,
        _ => true,
    }
}

/// The operand at position `i` of the SET `set_id`: `{"ObjectRef": id}`,
/// `{"SetRef": id}` or `{"InlineObject": {"id": ...}}`; or the message of
/// the error it gives.
pub open spec fn operand_outcome(v: JsonValue, set_id: Seq<char>, i: nat) -> Result<(u8, Seq<char>), Seq<char>> {
    match json_get_str(v, "ObjectRef"@) {
        Some(r) => if spec_is_valid_identifier(r) {
            Ok((0u8, r))
        } else {
            Err("Invalid object identifier format: '"@ + r + "'"@)
        },
        None => match json_get_str(v, "SetRef"@) {
            Some(r) => if spec_is_valid_identifier(r) {
                Ok((1u8, r))
            } else {
                Err("Invalid set identifier format: '"@ + r + "'"@)
            },
            None => match json_get(v, "InlineObject"@) {
                Some(o) => Ok((2u8, match json_get_str(o, "id"@) {
                    Some(x) => x,
                    None => "inline_object"@,
                })),
                None => Err("Unknown set operand type in set '"@ + set_id + "' at index "@ + decimal(i)),
            },
        },
    }
}

/// The validation an operand defers: the object or SET it names.
pub open spec fn operand_deferrals(v: JsonValue, set_id: Seq<char>, i: nat) -> Seq<Deferral> {
    match operand_outcome(v, set_id, i) {
        Ok(o) => if o.0 == 0 {
            seq![(ValidationType::ObjectReference, "SET:"@ + set_id, o.1,
                "Set '"@ + set_id + "' operand "@ + decimal(i) + " references object '"@ + o.1 + "'"@)]
        } else if o.0 == 1 {
            seq![(ValidationType::SetReference, "SET:"@ + set_id, o.1,
                "Set '"@ + set_id + "' operand "@ + decimal(i) + " references set '"@ + o.1 + "'"@)]
        } else {
            Seq::empty()
        },
        Err(_) => Seq::empty(),
    }
}

/// The operands of a list, or the message of the first that fails.
pub open spec fn operands_outcome(items: Seq<JsonValue>, set_id: Seq<char>) -> Result<Seq<(u8, Seq<char>)>, Seq<char>>
    decreases items.len(),
{
    if items.len() == 0 {
        Ok(Seq::empty())
    } else {
        match operands_outcome(items.drop_last(), set_id) {
            Err(m) => Err(m),
            Ok(p) => match operand_outcome(items.last(), set_id, (items.len() - 1) as nat) {
                Err(m) => Err(m),
                Ok(o) => Ok(p.push(o)),
            },
        }
    }
}

/// The validations the operands of a list defer, in order.
pub open spec fn operands_deferrals(items: Seq<JsonValue>, set_id: Seq<char>) -> Seq<Deferral>
    decreases items.len(),
{
    if items.len() == 0 {
        Seq::empty()
    } else {
        operands_deferrals(items.drop_last(), set_id)
            + operand_deferrals(items.last(), set_id, (items.len() - 1) as nat)
    }
}

/// The context of the filter of the SET `id`.
pub open spec fn set_filter_context(id: Seq<char>) -> Seq<char> {
    "set '"@ + id + "'"@
}

/// The filter of a SET, when it has a non-null one.
pub open spec fn set_json_filter(j: JsonValue) -> Option<JsonValue> {
    match json_get(j, "filter"@) {
        Some(f) => if f is Null { None } else { Some(f) },
        None => None,
    }
}

/// The operation kind spelled `op`.
pub open spec fn set_operation_of(op: Seq<char>) -> Option<SetOperationType> {
    if op == "union"@ {
        Some(SetOperationType::Union)
    } else if op == "intersection"@ {
        Some(SetOperationType::Intersection)
    } else if op == "complement"@ {
        Some(SetOperationType::Complement)
    } else {
        None
    }
}

/// The message of the error the operands and filter of a SET declaration
/// with identifier `id` and kind `t` give, if any.
pub open spec fn set_json_body_error(j: JsonValue, id: Seq<char>, t: SetOperationType) -> Option<Seq<char>> {
    match json_get(j, "operands"@) {
        Some(JsonValue::Array(a)) => if a@.len() == 0 {
            Some("Set '"@ + id + "' cannot have zero operands"@)
        } else {
            match operands_outcome(a@, id) {
                Err(m) => Some(m),
                Ok(ops) => if !operand_count_ok(t, ops.len()) {
                    Some("Set '"@ + id + "': "@ + operand_count_message(t, ops.len()))
                } else {
                    set_json_filter_error(j, id)
                },
            }
        },
        _ => Some("Set missing operands"@),
    }
}

/// The message of the error the filter of a SET declaration gives, if any.
pub open spec fn set_json_filter_error(j: JsonValue, id: Seq<char>) -> Option<Seq<char>> {
    match set_json_filter(j) {
        Some(f) => match filter_error(f, set_filter_context(id)) {
            Some(_) => Some("Failed to parse filter for set '"@ + id + "'"@),
            None => None,
        },
        None => None,
    }
}

/// The message of the error a SET declaration gives, if any.
pub open spec fn set_json_error(j: JsonValue) -> Option<Seq<char>> {
    match json_get_str(j, "set_id"@) {
        None => Some("Set operation missing set_id"@),
        Some(id) => if !spec_is_valid_identifier(id) {
            Some("Invalid set identifier format: '"@ + id + "'"@)
        } else {
            match json_get_str(j, "operation"@) {
                None => Some("Set operation missing operation type"@),
                Some(op) => match set_operation_of(op) {
                    None => Some("Invalid set operation type: "@ + op),
                    Some(t) => set_json_body_error(j, id, t),
                },
            }
        },
    }
}

/// The states named by the filter of a SET declaration, without repeats.
pub open spec fn set_json_filter_refs(j: JsonValue) -> Seq<Seq<char>> {
    let id = json_get_str(j, "set_id"@)->Some_0;
    match set_json_filter(j) {
        Some(f) => dedup_ids(filter_refs_outcome(f, set_filter_context(id))->Ok_0.1),
        None => Seq::empty(),
    }
}

/// The validations a well-formed SET declaration defers: its operands', then
/// one per state of its filter.
pub open spec fn set_json_deferrals(j: JsonValue) -> Seq<Deferral> {
    let id = json_get_str(j, "set_id"@)->Some_0;
    operands_deferrals(json_get(j, "operands"@)->Some_0->Array_0@, id)
        + set_json_filter_refs(j).map_values(|r: Seq<char>| (ValidationType::FilterStateReference,
            "SET:"@ + id + ":FILTER"@, r, "Set '"@ + id + "' filter references state '"@ + r + "'"@))
}

/// `op` is the SET that the well-formed declaration `j` describes.
pub open spec fn set_parsed(j: JsonValue, op: SetOperation) -> bool {
    let id = json_get_str(j, "set_id"@)->Some_0;
    &&& op.set_id@ == id
    &&& set_operation_of(json_get_str(j, "operation"@)->Some_0) == Some(op.operation)
    &&& op.operands@.map_values(|o: SetOperand| operand_view(o))
        == operands_outcome(json_get(j, "operands"@)->Some_0->Array_0@, id)->Ok_0
    &&& forall|k: int| 0 <= k < op.operands@.len() ==> operand_well_made(#[trigger] op.operands@[k])
    &&& match set_json_filter(j) {
        Some(f) => op.filter matches Some(fs) && fs.action == filter_action_outcome(f, set_filter_context(id))->Ok_0.0
            && views(fs.state_refs@) == set_json_filter_refs(j),
        None => op.filter is None,
    }
}

/// Parse the operand at position `operand_index` of the SET `set_id`,
/// deferring the validation of the object or SET it names.
pub fn parse_set_operand_from_json(operand_json: &JsonValue, set_id: &str, operand_index: usize,
    context: &mut ResolutionContext) -> (res: Result<SetOperand, ResolutionError>)
    requires
        context_wf(*old(context)),
    ensures
        context_wf(*final(context)),
        final(context).parsing_errors@ == old(context).parsing_errors@,
        *final(context) == (ResolutionContext { deferred_validations: final(context).deferred_validations, ..*old(context) }),
        match res {
            Ok(o) => operand_outcome(*operand_json, set_id@, operand_index as nat) == Ok::<(u8, Seq<char>), Seq<char>>(operand_view(o))
                && operand_well_made(o)
                && deferrals(final(context).deferred_validations@) == deferrals(old(context).deferred_validations@)
                    + operand_deferrals(*operand_json, set_id@, operand_index as nat),
            Err(e) => e matches ResolutionError::InvalidInput { message }
                && operand_outcome(*operand_json, set_id@, operand_index as nat) == Err::<(u8, Seq<char>), Seq<char>>(message@)
                && final(context).deferred_validations == old(context).deferred_validations,
        },
{
    let ghost d0 = deferrals(context.deferred_validations@);
    let n = usize_to_string(operand_index);
    if let Some(r) = operand_json.get_str("ObjectRef") {
        if !is_valid_identifier(r) {
            return Err(ResolutionError::InvalidInput { message: concat3("Invalid object identifier format: '", r, "'") });
        }
        let head = concat5("Set '", set_id, "' operand ", n.as_str(), " references object '");
        context.defer_object_reference_validation(concat2("SET:", set_id), to_owned_string(r),
            concat3(head.as_str(), r, "'"));
        proof {
            assert(deferrals(context.deferred_validations@) =~= d0 + operand_deferrals(*operand_json, set_id@, operand_index as nat));
        }
        return Ok(SetOperand::ObjectRef(to_owned_string(r)));
    }
    if let Some(r) = operand_json.get_str("SetRef") {
        if !is_valid_identifier(r) {
            return Err(ResolutionError::InvalidInput { message: concat3("Invalid set identifier format: '", r, "'") });
        }
        let head = concat5("Set '", set_id, "' operand ", n.as_str(), " references set '");
        context.add_deferred_validation(DeferredValidation {
            validation_type: ValidationType::SetReference,
            source_symbol: concat2("SET:", set_id),
            target_symbol: to_owned_string(r),
            context: concat3(head.as_str(), r, "'"),
        });
        proof {
            assert(deferrals(context.deferred_validations@) =~= d0 + operand_deferrals(*operand_json, set_id@, operand_index as nat));
        }
        return Ok(SetOperand::SetRef(to_owned_string(r)));
    }
    if let Some(inline) = operand_json.get("InlineObject") {
        let object_id = match inline.get_str("id") {
            Some(x) => x,
            None => "inline_object",
        };
        proof {
            reveal_strlit("inline_object");
            assert(deferrals(context.deferred_validations@) =~= d0 + operand_deferrals(*operand_json, set_id@, operand_index as nat));
        }
        return Ok(SetOperand::InlineObject(ObjectDeclaration {
            identifier: to_owned_string(object_id),
            elements: Vec::new(),
            is_global: false,
        }));
    }
    Err(ResolutionError::InvalidInput { message: concat4("Unknown set operand type in set '", set_id, "' at index ", n.as_str()) })
}

/// Parse the operands of the SET `set_id`; at least one is required.
fn parse_set_operands(set_json: &JsonValue, set_id: &str, context: &mut ResolutionContext)
    -> (res: Result<Vec<SetOperand>, ResolutionError>)
    requires
        context_wf(*old(context)),
    ensures
        context_wf(*final(context)),
        final(context).parsing_errors@ == old(context).parsing_errors@,
        *final(context) == (ResolutionContext { deferred_validations: final(context).deferred_validations, ..*old(context) }),
        match res {
            Ok(ops) => json_get(*set_json, "operands"@) matches Some(JsonValue::Array(a)) && a@.len() > 0
                && operands_outcome(a@, set_id@) == Ok::<Seq<(u8, Seq<char>)>, Seq<char>>(ops@.map_values(|o: SetOperand| operand_view(o)))
                && (forall|k: int| 0 <= k < ops@.len() ==> operand_well_made(#[trigger] ops@[k]))
                && deferrals(final(context).deferred_validations@) == deferrals(old(context).deferred_validations@)
                    + operands_deferrals(a@, set_id@),
            Err(e) => e matches ResolutionError::InvalidInput { message } && match json_get(*set_json, "operands"@) {
                Some(JsonValue::Array(a)) => if a@.len() == 0 {
                    message@ == "Set '"@ + set_id@ + "' cannot have zero operands"@
                } else {
                    operands_outcome(a@, set_id@) == Err::<Seq<(u8, Seq<char>)>, Seq<char>>(message@)
                },
                _ => message@ == "Set missing operands"@,
            },
        },
{
    let items = match set_json.get("operands") {
        Some(v) => match v.as_array() {
            Some(a) => a,
            None => {
                return Err(ResolutionError::InvalidInput { message: to_owned_string("Set missing operands") });
            },
        },
        None => {
            return Err(ResolutionError::InvalidInput { message: to_owned_string("Set missing operands") });
        },
    };
    if items.len() == 0 {
        return Err(ResolutionError::InvalidInput { message: concat3("Set '", set_id, "' cannot have zero operands") });
    }
    let ghost d0 = deferrals(context.deferred_validations@);
    let mut operands: Vec<SetOperand> = Vec::new();
    let mut i: usize = 0;
    proof {
        assert(items@.subrange(0, 0) =~= Seq::<JsonValue>::empty());
        assert(operands@.map_values(|o: SetOperand| operand_view(o)) =~= Seq::<(u8, Seq<char>)>::empty());
        assert(deferrals(context.deferred_validations@) =~= d0 + Seq::<Deferral>::empty());
    }
    while i < items.len()
        invariant
            i <= items@.len(),
            context_wf(*context),
            context.parsing_errors@ == old(context).parsing_errors@,
            *context == (ResolutionContext { deferred_validations: context.deferred_validations, ..*old(context) }),
            d0 == deferrals(old(context).deferred_validations@),
            json_get(*set_json, "operands"@) == Some(JsonValue::Array(*items)),
            operands_outcome(items@.subrange(0, i as int), set_id@)
                == Ok::<Seq<(u8, Seq<char>)>, Seq<char>>(operands@.map_values(|o: SetOperand| operand_view(o))),
            forall|k: int| 0 <= k < operands@.len() ==> operand_well_made(#[trigger] operands@[k]),
            deferrals(context.deferred_validations@) == d0 + operands_deferrals(items@.subrange(0, i as int), set_id@),
        decreases items@.len() - i,
    {
        proof {
            let sub = items@.subrange(0, i + 1);
            assert(sub.drop_last() =~= items@.subrange(0, i as int));
            assert(sub.last() == items@[i as int]);
        }
        let ghost ob = operands@;
        match parse_set_operand_from_json(&items[i], set_id, i, context) {
            Ok(o) => {
                operands.push(o);
                proof {
                    assert(operands@.map_values(|o: SetOperand| operand_view(o))
                        =~= ob.map_values(|o: SetOperand| operand_view(o)).push(operand_view(o)));
                }
            },
            Err(e) => {
                proof {
                    lemma_operands_error_extends(items@, i + 1, set_id@);
                }
                return Err(e);
            },
        }
        i = i + 1;
    }
    proof {
        assert(items@.subrange(0, items@.len() as int) =~= items@);
    }
    Ok(operands)
}

/// Once a prefix of the operands fails, the whole list fails with the same message.
proof fn lemma_operands_error_extends(items: Seq<JsonValue>, k: int, set_id: Seq<char>)
    requires
        0 <= k <= items.len(),
        operands_outcome(items.subrange(0, k), set_id) is Err,
    ensures
        operands_outcome(items, set_id) == operands_outcome(items.subrange(0, k), set_id),
    decreases items.len() - k,
{
    if k == items.len() {
        assert(items.subrange(0, k) =~= items);
    } else {
        assert(items.subrange(0, k + 1).drop_last() =~= items.subrange(0, k));
        lemma_operands_error_extends(items, k + 1, set_id);
    }
}

/// Parse the optional filter of the SET `set_id`, deferring the validation
/// of each state it names.
fn parse_set_filter(set_json: &JsonValue, set_id: &str, context: &mut ResolutionContext)
    -> (res: Result<Option<FilterSpec>, ResolutionError>)
    requires
        context_wf(*old(context)),
        json_get_str(*set_json, "set_id"@) == Some(set_id@),
    ensures
        context_wf(*final(context)),
        final(context).parsing_errors@ == old(context).parsing_errors@,
        *final(context) == (ResolutionContext { deferred_validations: final(context).deferred_validations, ..*old(context) }),
        match res {
            Ok(fo) => (match set_json_filter(*set_json) {
                Some(f) => {
                    &&& filter_error(f, set_filter_context(set_id@)) is None
                    &&& fo matches Some(fs)
                    &&& fs.action == filter_action_outcome(f, set_filter_context(set_id@))->Ok_0.0
                    &&& views(fs.state_refs@) == set_json_filter_refs(*set_json)
                },
                None => fo is None,
            }) && deferrals(final(context).deferred_validations@) == deferrals(old(context).deferred_validations@)
                + set_json_filter_refs(*set_json).map_values(|r: Seq<char>| (ValidationType::FilterStateReference,
                    "SET:"@ + set_id@ + ":FILTER"@, r, "Set '"@ + set_id@ + "' filter references state '"@ + r + "'"@)),
            Err(e) => {
                &&& e matches ResolutionError::InvalidInput { message }
                &&& message@ == "Failed to parse filter for set '"@ + set_id@ + "'"@
                &&& set_json_filter_error(*set_json, set_id@) is Some
            },
        },
{
    let ghost d0 = deferrals(context.deferred_validations@);
    let ghost tag = |r: Seq<char>| (ValidationType::FilterStateReference,
        "SET:"@ + set_id@ + ":FILTER"@, r, "Set '"@ + set_id@ + "' filter references state '"@ + r + "'"@);
    if let Some(filter_json) = set_json.get("filter") {
        if !filter_json.is_null() {
            match parse_filter_from_set_context(filter_json, set_id) {
                Ok(fs) => {
                    let source = concat3("SET:", set_id, ":FILTER");
                    let mut i: usize = 0;
                    while i < fs.state_refs.len()
                        invariant
                            i <= fs.state_refs@.len(),
                            source@ == "SET:"@ + set_id@ + ":FILTER"@,
                            tag == (|r: Seq<char>| (ValidationType::FilterStateReference,
                                "SET:"@ + set_id@ + ":FILTER"@, r, "Set '"@ + set_id@ + "' filter references state '"@ + r + "'"@)),
                            context_wf(*context),
                            context.parsing_errors@ == old(context).parsing_errors@,
            *context == (ResolutionContext { deferred_validations: context.deferred_validations, ..*old(context) }),
                            deferrals(context.deferred_validations@)
                                == d0 + views(fs.state_refs@).subrange(0, i as int).map_values(tag),
                        decreases fs.state_refs@.len() - i,
                    {
                        let ghost before_vec = context.deferred_validations@;
                        let ghost before = deferrals(context.deferred_validations@);
                        let r = fs.state_refs[i].as_str();
                        let dv = DeferredValidation {
                            validation_type: ValidationType::FilterStateReference,
                            source_symbol: source.clone(),
                            target_symbol: to_owned_string(r),
                            context: concat5("Set '", set_id, "' filter references state '", r, "'"),
                        };
                        proof {
                            assert(deferral(dv) == tag(r@));
                            assert(deferrals(before_vec.push(dv)) =~= before.push(deferral(dv)));
                        }
                        context.add_deferred_validation(dv);
                        proof {
                            assert(views(fs.state_refs@).subrange(0, i + 1).map_values(tag)
                                =~= views(fs.state_refs@).subrange(0, i as int).map_values(tag).push(tag(r@)));
                            assert(deferrals(context.deferred_validations@) =~= before.push(tag(r@)));
                        }
                        i = i + 1;
                    }
                    proof {
                        assert(views(fs.state_refs@).subrange(0, fs.state_refs@.len() as int) =~= views(fs.state_refs@));
                        assert(tag == (|r: Seq<char>| (ValidationType::FilterStateReference,
                            "SET:"@ + set_id@ + ":FILTER"@, r, "Set '"@ + set_id@ + "' filter references state '"@ + r + "'"@)));
                    }
                    return Ok(Some(fs));
                },
                Err(_) => {
                    return Err(ResolutionError::InvalidInput { message: concat3("Failed to parse filter for set '", set_id, "'") });
                },
            }
        }
    }
    proof {
        assert(deferrals(context.deferred_validations@) =~= d0
            + Seq::<Seq<char>>::empty().map_values(tag));
    }
    Ok(None)
}

/// The deferred validations of each SET declaration of a list, one after the other.
pub open spec fn sets_json_deferrals(items: Seq<JsonValue>) -> Seq<Deferral>
    decreases items.len(),
{
    if items.len() == 0 {
        Seq::empty()
    } else {
        sets_json_deferrals(items.drop_last()) + set_json_deferrals(items.last())
    }
}

/// The position and message of the first SET declaration of a list that
/// gives an error.
pub open spec fn first_set_error(items: Seq<JsonValue>) -> Option<(nat, Seq<char>)>
    decreases items.len(),
{
    if items.len() == 0 {
        None
    } else {
        match first_set_error(items.drop_last()) {
            Some(e) => Some(e),
            None => match set_json_error(items.last()) {
                Some(m) => Some(((items.len() - 1) as nat, m)),
                None => None,
            },
        }
    }
}

/// The SET declarations of the definition of an AST; none when it lists none.
pub open spec fn ast_sets(ast: JsonValue) -> Seq<JsonValue> {
    match json_get(ast, "definition"@) {
        Some(d) => match json_get(d, "set_operations"@) {
            Some(JsonValue::Array(a)) => a@,
            _ => Seq::empty(),
        },
        None => Seq::empty(),
    }
}

/// Parse one SET declaration, deferring the validation of the objects, SETs
/// and states it names.
pub fn parse_set_operation_from_json(set_json: &JsonValue, context: &mut ResolutionContext)
    -> (res: Result<SetOperation, ResolutionError>)
    requires
        context_wf(*old(context)),
    ensures
        context_wf(*final(context)),
        final(context).parsing_errors@ == old(context).parsing_errors@,
        *final(context) == (ResolutionContext { deferred_validations: final(context).deferred_validations, ..*old(context) }),
        match res {
            Ok(op) => set_json_error(*set_json) is None && set_parsed(*set_json, op)
                && deferrals(final(context).deferred_validations@)
                    == deferrals(old(context).deferred_validations@) + set_json_deferrals(*set_json),
            Err(e) => e matches ResolutionError::InvalidInput { message } && set_json_error(*set_json) == Some(message@),
        },
{
    let ghost d0 = deferrals(context.deferred_validations@);
    let set_id = match set_json.get_str("set_id") {
        Some(x) => x,
        None => {
            return Err(ResolutionError::InvalidInput { message: to_owned_string("Set operation missing set_id") });
        },
    };
    if !is_valid_identifier(set_id) {
        return Err(ResolutionError::InvalidInput { message: concat3("Invalid set identifier format: '", set_id, "'") });
    }
    let operation_str = match set_json.get_str("operation") {
        Some(x) => x,
        None => {
            return Err(ResolutionError::InvalidInput { message: to_owned_string("Set operation missing operation type") });
        },
    };
    let operation = match SetOperationType::from_str(operation_str) {
        Some(t) => t,
        None => {
            proof {
                assert(set_operation_of(operation_str@) is None) by {
                    if operation_str@ == "union"@ {
                        assert(set_operation_name(SetOperationType::Union) == operation_str@);
                    } else if operation_str@ == "intersection"@ {
                        assert(set_operation_name(SetOperationType::Intersection) == operation_str@);
                    } else if operation_str@ == "complement"@ {
                        assert(set_operation_name(SetOperationType::Complement) == operation_str@);
                    }
                }
            }
            return Err(ResolutionError::InvalidInput { message: concat2("Invalid set operation type: ", operation_str) });
        },
    };
    proof {
        reveal_strlit("union");
        reveal_strlit("intersection");
        reveal_strlit("complement");
        match operation {
            SetOperationType::Union => {},
            SetOperationType::Intersection => {
                assert(operation_str@ == "intersection"@);
                assert("intersection"@.len() != "union"@.len());
            },
            SetOperationType::Complement => {
                assert(operation_str@ == "complement"@);
                assert("complement"@.len() != "union"@.len());
                assert("complement"@.len() != "intersection"@.len());
            },
        }
        assert(set_operation_of(operation_str@) == Some(operation));
    }
    let operands = match parse_set_operands(set_json, set_id, context) {
        Ok(o) => o,
        Err(e) => {
            return Err(e);
        },
    };
    let ghost d1 = deferrals(context.deferred_validations@);
    match operation.validate_operand_count(operands.len()) {
        Ok(()) => {},
        Err(msg) => {
            return Err(ResolutionError::InvalidInput { message: concat4("Set '", set_id, "': ", msg.as_str()) });
        },
    }
    let filter = match parse_set_filter(set_json, set_id, context) {
        Ok(f) => f,
        Err(e) => {
            return Err(e);
        },
    };
    proof {
        assert(deferrals(context.deferred_validations@) =~= d0 + set_json_deferrals(*set_json));
    }
    Ok(SetOperation { set_id: to_owned_string(set_id), operation, operands, filter })
}

/// Parse the SET declarations of the definition of an AST. A declaration
/// that gives an error stops the parse: a parsing error naming its position
/// is recorded and the error is returned.
pub fn extract_set_operations_from_json(ast_json: &JsonValue, context: &mut ResolutionContext)
    -> (res: Result<Vec<SetOperation>, ResolutionError>)
    requires
        context_wf(*old(context)),
    ensures
        context_wf(*final(context)),
        *final(context) == (ResolutionContext {
            deferred_validations: final(context).deferred_validations,
            parsing_errors: final(context).parsing_errors,
            ..*old(context)
        }),
        match res {
            Ok(ops) => {
                &&& json_get(*ast_json, "definition"@) is Some
                &&& first_set_error(ast_sets(*ast_json)) is None
                &&& ops@.len() == ast_sets(*ast_json).len()
                &&& forall|k: int| 0 <= k < ops@.len() ==> set_parsed(ast_sets(*ast_json)[k], #[trigger] ops@[k])
                &&& deferrals(final(context).deferred_validations@)
                    == deferrals(old(context).deferred_validations@) + sets_json_deferrals(ast_sets(*ast_json))
                &&& final(context).parsing_errors@ == old(context).parsing_errors@
            },
            Err(e) => e matches ResolutionError::InvalidInput { message } && match json_get(*ast_json, "definition"@) {
                None => message@ == "No definition found in AST"@ && *final(context) == *old(context),
                Some(_) => first_set_error(ast_sets(*ast_json)) matches Some(fe) && message@ == fe.1
                    && views(final(context).parsing_errors@) == views(old(context).parsing_errors@).push(
                        "Failed to parse set operation at index "@ + decimal(fe.0) + ": "@ + resolution_error_debug(e)),
            },
        },
{
    let definition = match ast_json.get("definition") {
        Some(d) => d,
        None => {
            return Err(ResolutionError::InvalidInput { message: to_owned_string("No definition found in AST") });
        },
    };
    let empty: Vec<JsonValue> = Vec::new();
    let items: &Vec<JsonValue> = match definition.get("set_operations") {
        Some(v) => match v.as_array() {
            Some(a) => a,
            None => &empty,
        },
        None => &empty,
    };
    proof {
        assert(items@ == ast_sets(*ast_json));
    }
    let ghost d0 = deferrals(context.deferred_validations@);
    let mut sets: Vec<SetOperation> = Vec::new();
    let mut i: usize = 0;
    proof {
        assert(items@.subrange(0, 0) =~= Seq::<JsonValue>::empty());
        assert(deferrals(context.deferred_validations@) =~= d0 + Seq::<Deferral>::empty());
    }
    while i < items.len()
        invariant
            i <= items@.len(),
            items@ == ast_sets(*ast_json),
            json_get(*ast_json, "definition"@) is Some,
            context_wf(*context),
            context.parsing_errors@ == old(context).parsing_errors@,
            *context == (ResolutionContext { deferred_validations: context.deferred_validations, ..*old(context) }),
            d0 == deferrals(old(context).deferred_validations@),
            first_set_error(items@.subrange(0, i as int)) is None,
            sets@.len() == i,
            forall|k: int| 0 <= k < i ==> set_parsed(items@[k], #[trigger] sets@[k]),
            deferrals(context.deferred_validations@) == d0 + sets_json_deferrals(items@.subrange(0, i as int)),
        decreases items@.len() - i,
    {
        proof {
            let sub = items@.subrange(0, i + 1);
            assert(sub.drop_last() =~= items@.subrange(0, i as int));
            assert(sub.last() == items@[i as int]);
        }
        match parse_set_operation_from_json(&items[i], context) {
            Ok(op) => {
                sets.push(op);
            },
            Err(e) => {
                let n = usize_to_string(i);
                let d = debug_resolution_error(&e);
                let ghost pe = context.parsing_errors@;
                let msg = concat4("Failed to parse set operation at index ", n.as_str(), ": ", d.as_str());
                context.add_parsing_error(msg);
                proof {
                    assert(views(context.parsing_errors@) =~= views(pe).push(msg@));
                    assert(first_set_error(items@.subrange(0, i + 1)) == Some((i as nat, set_json_error(items@[i as int])->Some_0)));
                    lemma_first_set_error_extends(items@, i + 1);
                }
                return Err(e);
            },
        }
        i = i + 1;
    }
    proof {
        assert(items@.subrange(0, items@.len() as int) =~= items@);
    }
    Ok(sets)
}

/// Once a prefix of the declarations holds an error, the first error of the
/// whole list is that of the prefix.
proof fn lemma_first_set_error_extends(items: Seq<JsonValue>, k: int)
    requires
        0 <= k <= items.len(),
        first_set_error(items.subrange(0, k)) is Some,
    ensures
        first_set_error(items) == first_set_error(items.subrange(0, k)),
    decreases items.len() - k,
{
    if k == items.len() {
        assert(items.subrange(0, k) =~= items);
    } else {
        assert(items.subrange(0, k + 1).drop_last() =~= items.subrange(0, k));
        lemma_first_set_error_extends(items, k + 1);
    }
}

/// The SET named by the reference at position `i`: a string or an object
/// with a `set_id` string; or the message of the error it gives.
pub open spec fn set_ref_item(v: JsonValue, i: nat, ctx: Seq<char>) -> Result<Seq<char>, Seq<char>> {
    let id = match v {
        JsonValue::String(s) => Ok(s@),
        JsonValue::Object(_) => match json_get_str(v, "set_id"@) {
            Some(x) => Ok(x),
            None => Err("Set reference object missing set_id in "@ + ctx),
        },
        _ => Err("Invalid set reference format at index "@ + decimal(i) + " in "@ + ctx),
    };
    match id {
        Ok(x) => if spec_is_valid_identifier(x) { Ok(x) } else { Err("Invalid set ID format '"@ + x + "' in "@ + ctx) },
        Err(m) => Err(m),
    }
}

/// The SETs named by a list of references, or the message of the first error.
pub open spec fn set_refs_outcome(items: Seq<JsonValue>, ctx: Seq<char>) -> Result<Seq<Seq<char>>, Seq<char>>
    decreases items.len(),
{
    if items.len() == 0 {
        Ok(Seq::empty())
    } else {
        match set_refs_outcome(items.drop_last(), ctx) {
            Err(m) => Err(m),
            Ok(p) => match set_ref_item(items.last(), (items.len() - 1) as nat, ctx) {
                Err(m) => Err(m),
                Ok(x) => Ok(p.push(x)),
            },
        }
    }
}

/// Once a prefix of the references fails, the whole list fails the same way.
proof fn lemma_set_refs_error_extends(items: Seq<JsonValue>, k: int, ctx: Seq<char>)
    requires
        0 <= k <= items.len(),
        set_refs_outcome(items.subrange(0, k), ctx) is Err,
    ensures
        set_refs_outcome(items, ctx) == set_refs_outcome(items.subrange(0, k), ctx),
    decreases items.len() - k,
{
    if k == items.len() {
        assert(items.subrange(0, k) =~= items);
    } else {
        assert(items.subrange(0, k + 1).drop_last() =~= items.subrange(0, k));
        lemma_set_refs_error_extends(items, k + 1, ctx);
    }
}

/// Parse a list of SET references (strings or `{"set_id": ...}` objects).
pub fn extract_set_references_from_json(refs_json: &JsonValue, context_name: &str)
    -> (res: Result<Vec<String>, ResolutionError>)
    ensures
        match res {
            Ok(refs) => refs_json matches JsonValue::Array(a)
                && set_refs_outcome(a@, context_name@) == Ok::<Seq<Seq<char>>, Seq<char>>(views(refs@)),
            Err(e) => e matches ResolutionError::InvalidInput { message } && match refs_json {
                JsonValue::Array(a) => set_refs_outcome(a@, context_name@) == Err::<Seq<Seq<char>>, Seq<char>>(message@),
                _ => message@ == "Set references must be an array in "@ + context_name@,
            },
        },
{
    let items = match refs_json.as_array() {
        Some(a) => a,
        None => {
            return Err(ResolutionError::InvalidInput { message: concat2("Set references must be an array in ", context_name) });
        },
    };
    let mut refs: Vec<String> = Vec::new();
    let mut i: usize = 0;
    proof {
        assert(items@.subrange(0, 0) =~= Seq::<JsonValue>::empty());
        assert(views(refs@) =~= Seq::<Seq<char>>::empty());
    }
    while i < items.len()
        invariant
            i <= items@.len(),
            *refs_json == JsonValue::Array(*items),
            set_refs_outcome(items@.subrange(0, i as int), context_name@) == Ok::<Seq<Seq<char>>, Seq<char>>(views(refs@)),
        decreases items@.len() - i,
    {
        proof {
            let sub = items@.subrange(0, i + 1);
            assert(sub.drop_last() =~= items@.subrange(0, i as int));
            assert(sub.last() == items@[i as int]);
        }
        let item = &items[i];
        let id: &str = match item {
            JsonValue::String(x) => x.as_str(),
            JsonValue::Object(_) => match item.get_str("set_id") {
                Some(x) => x,
                None => {
                    proof {
                        lemma_set_refs_error_extends(items@, i + 1, context_name@);
                    }
                    return Err(ResolutionError::InvalidInput {
                        message: concat2("Set reference object missing set_id in ", context_name),
                    });
                },
            },
            _ => {
                proof {
                    lemma_set_refs_error_extends(items@, i + 1, context_name@);
                }
                let n = usize_to_string(i);
                return Err(ResolutionError::InvalidInput {
                    message: concat4("Invalid set reference format at index ", n.as_str(), " in ", context_name),
                });
            },
        };
        if !is_valid_identifier(id) {
            proof {
                lemma_set_refs_error_extends(items@, i + 1, context_name@);
            }
            return Err(ResolutionError::InvalidInput {
                message: concat4("Invalid set ID format '", id, "' in ", context_name),
            });
        }
        let ghost rb = views(refs@);
        refs.push(to_owned_string(id));
        proof {
            assert(views(refs@) =~= rb.push(id@));
        }
        i = i + 1;
    }
    proof {
        assert(items@.subrange(0, items@.len() as int) =~= items@);
    }
    Ok(refs)
}

} // verus!
