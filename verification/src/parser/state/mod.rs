//! States: dependency collection.

use vstd::prelude::*;
use crate::strings::{concat2, concat3, concat4, concat5, to_owned_string, usize_to_string, decimal,
    is_valid_identifier, spec_is_valid_identifier};
use crate::json::{JsonValue, json_get, json_get_str, json_str, json_debug_text, debug_json};
use crate::types::common::{DataType, Operation, Value, data_type_name, operation_of};
use crate::types::state::{StateDeclaration, StateField, RecordField, RecordContent, RecordCheck, FieldPath, EntityCheck,
    StateRef, state_var_refs, entity_check_of, dot_split};
use crate::resolution::dag::views;
use crate::resolution::error::ResolutionError;
use crate::parser::variable::{json_int, json_float, json_bool, is_data_type_name};
use crate::parser::object::{json_items, definition_criteria, blocks_criteria, content_criteria, lemma_content_prefix,
    lemma_blocks_prefix};
use crate::string_map::CtnMap;
use crate::types::resolution_context::{ResolutionContext, ValidationType, context_wf, deferrals, deferrals_to};

pub mod error;

verus! {

/// Whether the fields or record checks of a state refer to variables.
pub fn has_variable_references_in_state(state: &StateDeclaration) -> (res: bool)
    ensures
        res == (state_var_refs(*state).len() > 0),
{
    state.has_variable_references()
}

/// The variables the fields and record checks of a state refer to, in order.
pub fn get_variable_references_from_state(state: &StateDeclaration) -> (res: Vec<String>)
    ensures
        res@.map_values(|r: String| r@) == state_var_refs(*state),
{
    state.get_variable_references()
}

/// The error message for a value that does not suit its declared type, if any.
pub open spec fn typed_value_error(v: JsonValue, dt: DataType, ctx: Seq<char>) -> Option<Seq<char>> {
    if json_get_str(v, "Variable"@) is Some {
        None
    } else {
        match dt {
            DataType::Boolean => if json_bool(json_get(v, "Boolean"@)) is Some {
                None
            } else if json_get(v, "String"@) is Some {
                Some("Type mismatch in "@ + ctx + ": boolean requires literal true/false (no backticks)"@)
            } else {
                Some("Type mismatch in "@ + ctx + ": expected boolean, got "@ + json_debug_text(v))
            },
            DataType::String => if json_get_str(v, "String"@) is Some {
                None
            } else if json_get(v, "Boolean"@) is Some || json_get(v, "Integer"@) is Some {
                Some("Type mismatch in "@ + ctx + ": string requires backticks (e.g., `value`)"@)
            } else {
                Some("Type mismatch in "@ + ctx + ": expected string, got "@ + json_debug_text(v))
            },
            DataType::Int => if json_int(json_get(v, "Integer"@)) is Some {
                None
            } else if json_get(v, "String"@) is Some {
                Some("Type mismatch in "@ + ctx + ": integer requires number without backticks"@)
            } else {
                Some("Type mismatch in "@ + ctx + ": expected integer, got "@ + json_debug_text(v))
            },
            DataType::Float => if json_float(json_get(v, "Float"@)) is Some || json_int(json_get(v, "Integer"@)) is Some {
                None
            } else if json_get(v, "String"@) is Some {
                Some("Type mismatch in "@ + ctx + ": float requires number without backticks"@)
            } else {
                Some("Type mismatch in "@ + ctx + ": expected float, got "@ + json_debug_text(v))
            },
            _ => if json_get_str(v, "String"@) is Some || json_int(json_get(v, "Integer"@)) is Some
                || json_float(json_get(v, "Float"@)) is Some || json_bool(json_get(v, "Boolean"@)) is Some
            {
                None
            } else {
                Some("Unknown value type in "@ + ctx + ": "@ + json_debug_text(v))
            },
        }
    }
}

/// `x` is the value of the declared type `dt` that `v` describes. An integer
/// read as a float keeps the number's float reading.
pub open spec fn typed_value_parsed(v: JsonValue, dt: DataType, x: Value) -> bool {
    if json_get_str(v, "Variable"@) is Some {
        x matches Value::Variable(n) && n@ == json_get_str(v, "Variable"@)->Some_0
    } else {
        match dt {
            DataType::Boolean => x == Value::Boolean(json_bool(json_get(v, "Boolean"@))->Some_0),
            DataType::String => x matches Value::String(t) && t@ == json_get_str(v, "String"@)->Some_0,
            DataType::Int => x == Value::Integer(json_int(json_get(v, "Integer"@))->Some_0),
            DataType::Float => if json_float(json_get(v, "Float"@)) is Some {
                x == Value::Float(json_float(json_get(v, "Float"@))->Some_0)
            } else {
                x == Value::Float(json_float(json_get(v, "Integer"@))->Some_0)
            },
            _ => if json_get_str(v, "String"@) is Some {
                x matches Value::String(t) && t@ == json_get_str(v, "String"@)->Some_0
            } else if json_int(json_get(v, "Integer"@)) is Some {
                x == Value::Integer(json_int(json_get(v, "Integer"@))->Some_0)
            } else if json_float(json_get(v, "Float"@)) is Some {
                x == Value::Float(json_float(json_get(v, "Float"@))->Some_0)
            } else {
                x == Value::Boolean(json_bool(json_get(v, "Boolean"@))->Some_0)
            },
        }
    }
}

/// The string member `key`, when present.
fn member_str<'a>(v: &'a JsonValue, key: &str) -> (res: Option<&'a str>)
    ensures
        match res {
            Some(s) => json_get_str(*v, key@) == Some(s@),
            None => json_get_str(*v, key@) is None,
        },
{
    v.get_str(key)
}

/// The integer member `key`, when it is an integer that fits in `i64`.
fn member_int(v: &JsonValue, key: &str) -> (res: Option<i64>)
    ensures
        res == json_int(json_get(*v, key@)),
{
    match v.get(key) {
        Some(m) => m.as_i64(),
        None => None,
    }
}

/// The float reading of the number member `key`, when it is a number.
fn member_float(v: &JsonValue, key: &str) -> (res: Option<u64>)
    ensures
        res == json_float(json_get(*v, key@)),
{
    match v.get(key) {
        Some(m) => m.as_float_bits(),
        None => None,
    }
}

/// The boolean member `key`, when it is one.
fn member_bool(v: &JsonValue, key: &str) -> (res: Option<bool>)
    ensures
        res == json_bool(json_get(*v, key@)),
{
    match v.get(key) {
        Some(m) => m.as_bool(),
        None => None,
    }
}

/// Parse a value that must suit the declared type `dt`; `ctx` names where it
/// stands for error messages. A variable reference suits every type.
pub fn parse_typed_value(value_json: &JsonValue, dt: DataType, ctx: &str) -> (res: Result<Value, ResolutionError>)
    ensures
        match res {
            Ok(x) => typed_value_error(*value_json, dt, ctx@) is None && typed_value_parsed(*value_json, dt, x),
            Err(e) => e matches ResolutionError::InvalidInput { message }
                && typed_value_error(*value_json, dt, ctx@) == Some(message@),
        },
{
    if let Some(n) = member_str(value_json, "Variable") {
        return Ok(Value::Variable(to_owned_string(n)));
    }
    match dt {
        DataType::Boolean => {
            if let Some(b) = member_bool(value_json, "Boolean") {
                return Ok(Value::Boolean(b));
            }
            if value_json.get("String").is_some() {
                return Err(ResolutionError::InvalidInput {
                    message: concat3("Type mismatch in ", ctx, ": boolean requires literal true/false (no backticks)"),
                });
            }
            let d = debug_json(value_json);
            Err(ResolutionError::InvalidInput { message: concat4("Type mismatch in ", ctx, ": expected boolean, got ", d.as_str()) })
        },
        DataType::String => {
            if let Some(t) = member_str(value_json, "String") {
                return Ok(Value::String(to_owned_string(t)));
            }
            if value_json.get("Boolean").is_some() || value_json.get("Integer").is_some() {
                return Err(ResolutionError::InvalidInput {
                    message: concat3("Type mismatch in ", ctx, ": string requires backticks (e.g., `value`)"),
                });
            }
            let d = debug_json(value_json);
            Err(ResolutionError::InvalidInput { message: concat4("Type mismatch in ", ctx, ": expected string, got ", d.as_str()) })
        },
        DataType::Int => {
            if let Some(i) = member_int(value_json, "Integer") {
                return Ok(Value::Integer(i));
            }
            if value_json.get("String").is_some() {
                return Err(ResolutionError::InvalidInput {
                    message: concat3("Type mismatch in ", ctx, ": integer requires number without backticks"),
                });
            }
            let d = debug_json(value_json);
            Err(ResolutionError::InvalidInput { message: concat4("Type mismatch in ", ctx, ": expected integer, got ", d.as_str()) })
        },
        DataType::Float => {
            if let Some(f) = member_float(value_json, "Float") {
                return Ok(Value::Float(f));
            }
            if member_int(value_json, "Integer").is_some() {
                let f = match member_float(value_json, "Integer") {
                    Some(f) => f,
                    None => 0,
                };
                return Ok(Value::Float(f));
            }
            if value_json.get("String").is_some() {
                return Err(ResolutionError::InvalidInput {
                    message: concat3("Type mismatch in ", ctx, ": float requires number without backticks"),
                });
            }
            let d = debug_json(value_json);
            Err(ResolutionError::InvalidInput { message: concat4("Type mismatch in ", ctx, ": expected float, got ", d.as_str()) })
        },
        _ => {
            if let Some(t) = member_str(value_json, "String") {
                return Ok(Value::String(to_owned_string(t)));
            }
            if let Some(i) = member_int(value_json, "Integer") {
                return Ok(Value::Integer(i));
            }
            if let Some(f) = member_float(value_json, "Float") {
                return Ok(Value::Float(f));
            }
            if let Some(b) = member_bool(value_json, "Boolean") {
                return Ok(Value::Boolean(b));
            }
            let d = debug_json(value_json);
            Err(ResolutionError::InvalidInput { message: concat4("Unknown value type in ", ctx, ": ", d.as_str()) })
        },
    }
}

/// The entity check of a field, when present and not null, or the message of
/// the error it gives (`not_string` when it is not a string, `invalid` before
/// an unknown name).
pub open spec fn entity_check_outcome(j: JsonValue, not_string: Seq<char>, invalid: Seq<char>)
    -> Result<Option<EntityCheck>, Seq<char>>
{
    match json_get(j, "entity_check"@) {
        Some(e) => if e is Null {
            Ok(None)
        } else {
            match json_str(e) {
                None => Err(not_string),
                Some(x) => match entity_check_of(x) {
                    Some(c) => Ok(Some(c)),
                    None => Err(invalid + x),
                },
            }
        },
        None => Ok(None),
    }
}

/// Read the entity check of a field.
fn parse_entity_check(j: &JsonValue, not_string: &str, invalid: &str) -> (res: Result<Option<EntityCheck>, ResolutionError>)
    ensures
        match res {
            Ok(c) => entity_check_outcome(*j, not_string@, invalid@) == Ok::<Option<EntityCheck>, Seq<char>>(c),
            Err(e) => e matches ResolutionError::InvalidInput { message }
                && entity_check_outcome(*j, not_string@, invalid@) == Err::<Option<EntityCheck>, Seq<char>>(message@),
        },
{
    match j.get("entity_check") {
        Some(e) => if e.is_null() {
            Ok(None)
        } else {
            match e.as_str() {
                None => Err(ResolutionError::InvalidInput { message: to_owned_string(not_string) }),
                Some(x) => match EntityCheck::from_str(x) {
                    Some(c) => Ok(Some(c)),
                    None => Err(ResolutionError::InvalidInput { message: concat2(invalid, x) }),
                },
            }
        },
        None => Ok(None),
    }
}

/// The context of the value of the field `name` of the state `sid`.
pub open spec fn field_context(sid: Seq<char>, name: Seq<char>) -> Seq<char> {
    "state '"@ + sid + "' field '"@ + name + "'"@
}

/// The message of the error a state field gives, if any.
pub open spec fn state_field_error(j: JsonValue, sid: Seq<char>) -> Option<Seq<char>> {
    if json_get_str(j, "name"@) is None {
        Some("State field missing name"@)
    } else if json_get_str(j, "data_type"@) is None {
        Some("State field missing data_type"@)
    } else if !is_data_type_name(json_get_str(j, "data_type"@)->Some_0) {
        Some("Invalid data type: "@ + json_get_str(j, "data_type"@)->Some_0)
    } else if json_get_str(j, "operation"@) is None {
        Some("State field missing operation"@)
    } else if operation_of(json_get_str(j, "operation"@)->Some_0) is None {
        Some("Invalid operation: "@ + json_get_str(j, "operation"@)->Some_0)
    } else if json_get(j, "value"@) is None {
        Some("State field missing value"@)
    } else {
        let dt = choose|t: DataType| data_type_name(t) == json_get_str(j, "data_type"@)->Some_0;
        match typed_value_error(json_get(j, "value"@)->Some_0, dt, field_context(sid, json_get_str(j, "name"@)->Some_0)) {
            Some(m) => Some(m),
            None => match entity_check_outcome(j, "Entity check must be a string"@, "Invalid entity check: "@) {
                Err(m) => Some(m),
                Ok(_) => None,
            },
        }
    }
}

/// `f` is the field that the well-formed `j` describes.
pub open spec fn state_field_parsed(j: JsonValue, f: StateField) -> bool {
    &&& f.name@ == json_get_str(j, "name"@)->Some_0
    &&& data_type_name(f.data_type) == json_get_str(j, "data_type"@)->Some_0
    &&& operation_of(json_get_str(j, "operation"@)->Some_0) == Some(f.operation)
    &&& typed_value_parsed(json_get(j, "value"@)->Some_0, f.data_type, f.value)
    &&& entity_check_outcome(j, "Entity check must be a string"@, "Invalid entity check: "@)
        == Ok::<Option<EntityCheck>, Seq<char>>(f.entity_check)
}

/// Distinct data types are spelled differently.
proof fn lemma_data_type_name_injective(a: DataType, b: DataType)
    requires
        data_type_name(a) == data_type_name(b),
    ensures
        a == b,
{
    reveal_strlit("String");
    reveal_strlit("Int");
    reveal_strlit("Float");
    reveal_strlit("Boolean");
    reveal_strlit("Binary");
    reveal_strlit("RecordData");
    reveal_strlit("Version");
    reveal_strlit("EvrString");
    let sa = data_type_name(a);
    let sb = data_type_name(b);
    assert(sa.len() == sb.len());
    match (a, b) {
        (DataType::String, DataType::String) => {},
        (DataType::String, DataType::Int) => { assert("String"@.len() == 6); assert("Int"@.len() == 3); },
        (DataType::String, DataType::Float) => { assert("String"@.len() == 6); assert("Float"@.len() == 5); },
        (DataType::String, DataType::Boolean) => { assert("String"@.len() == 6); assert("Boolean"@.len() == 7); },
        (DataType::String, DataType::Binary) => { assert("String"@[0] == 'S'); assert("Binary"@[0] == 'B'); assert(sa[0] == sb[0]); },
        (DataType::String, DataType::RecordData) => { assert("String"@.len() == 6); assert("RecordData"@.len() == 10); },
        (DataType::String, DataType::Version) => { assert("String"@.len() == 6); assert("Version"@.len() == 7); },
        (DataType::String, DataType::EvrString) => { assert("String"@.len() == 6); assert("EvrString"@.len() == 9); },
        (DataType::Int, DataType::String) => { assert("Int"@.len() == 3); assert("String"@.len() == 6); },
        (DataType::Int, DataType::Int) => {},
        (DataType::Int, DataType::Float) => { assert("Int"@.len() == 3); assert("Float"@.len() == 5); },
        (DataType::Int, DataType::Boolean) => { assert("Int"@.len() == 3); assert("Boolean"@.len() == 7); },
        (DataType::Int, DataType::Binary) => { assert("Int"@.len() == 3); assert("Binary"@.len() == 6); },
        (DataType::Int, DataType::RecordData) => { assert("Int"@.len() == 3); assert("RecordData"@.len() == 10); },
        (DataType::Int, DataType::Version) => { assert("Int"@.len() == 3); assert("Version"@.len() == 7); },
        (DataType::Int, DataType::EvrString) => { assert("Int"@.len() == 3); assert("EvrString"@.len() == 9); },
        (DataType::Float, DataType::String) => { assert("Float"@.len() == 5); assert("String"@.len() == 6); },
        (DataType::Float, DataType::Int) => { assert("Float"@.len() == 5); assert("Int"@.len() == 3); },
        (DataType::Float, DataType::Float) => {},
        (DataType::Float, DataType::Boolean) => { assert("Float"@.len() == 5); assert("Boolean"@.len() == 7); },
        (DataType::Float, DataType::Binary) => { assert("Float"@.len() == 5); assert("Binary"@.len() == 6); },
        (DataType::Float, DataType::RecordData) => { assert("Float"@.len() == 5); assert("RecordData"@.len() == 10); },
        (DataType::Float, DataType::Version) => { assert("Float"@.len() == 5); assert("Version"@.len() == 7); },
        (DataType::Float, DataType::EvrString) => { assert("Float"@.len() == 5); assert("EvrString"@.len() == 9); },
        (DataType::Boolean, DataType::String) => { assert("Boolean"@.len() == 7); assert("String"@.len() == 6); },
        (DataType::Boolean, DataType::Int) => { assert("Boolean"@.len() == 7); assert("Int"@.len() == 3); },
        (DataType::Boolean, DataType::Float) => { assert("Boolean"@.len() == 7); assert("Float"@.len() == 5); },
        (DataType::Boolean, DataType::Boolean) => {},
        (DataType::Boolean, DataType::Binary) => { assert("Boolean"@.len() == 7); assert("Binary"@.len() == 6); },
        (DataType::Boolean, DataType::RecordData) => { assert("Boolean"@.len() == 7); assert("RecordData"@.len() == 10); },
        (DataType::Boolean, DataType::Version) => { assert("Boolean"@[0] == 'B'); assert("Version"@[0] == 'V'); assert(sa[0] == sb[0]); },
        (DataType::Boolean, DataType::EvrString) => { assert("Boolean"@.len() == 7); assert("EvrString"@.len() == 9); },
        (DataType::Binary, DataType::String) => { assert("Binary"@[0] == 'B'); assert("String"@[0] == 'S'); assert(sa[0] == sb[0]); },
        (DataType::Binary, DataType::Int) => { assert("Binary"@.len() == 6); assert("Int"@.len() == 3); },
        (DataType::Binary, DataType::Float) => { assert("Binary"@.len() == 6); assert("Float"@.len() == 5); },
        (DataType::Binary, DataType::Boolean) => { assert("Binary"@.len() == 6); assert("Boolean"@.len() == 7); },
        (DataType::Binary, DataType::Binary) => {},
        (DataType::Binary, DataType::RecordData) => { assert("Binary"@.len() == 6); assert("RecordData"@.len() == 10); },
        (DataType::Binary, DataType::Version) => { assert("Binary"@.len() == 6); assert("Version"@.len() == 7); },
        (DataType::Binary, DataType::EvrString) => { assert("Binary"@.len() == 6); assert("EvrString"@.len() == 9); },
        (DataType::RecordData, DataType::String) => { assert("RecordData"@.len() == 10); assert("String"@.len() == 6); },
        (DataType::RecordData, DataType::Int) => { assert("RecordData"@.len() == 10); assert("Int"@.len() == 3); },
        (DataType::RecordData, DataType::Float) => { assert("RecordData"@.len() == 10); assert("Float"@.len() == 5); },
        (DataType::RecordData, DataType::Boolean) => { assert("RecordData"@.len() == 10); assert("Boolean"@.len() == 7); },
        (DataType::RecordData, DataType::Binary) => { assert("RecordData"@.len() == 10); assert("Binary"@.len() == 6); },
        (DataType::RecordData, DataType::RecordData) => {},
        (DataType::RecordData, DataType::Version) => { assert("RecordData"@.len() == 10); assert("Version"@.len() == 7); },
        (DataType::RecordData, DataType::EvrString) => { assert("RecordData"@.len() == 10); assert("EvrString"@.len() == 9); },
        (DataType::Version, DataType::String) => { assert("Version"@.len() == 7); assert("String"@.len() == 6); },
        (DataType::Version, DataType::Int) => { assert("Version"@.len() == 7); assert("Int"@.len() == 3); },
        (DataType::Version, DataType::Float) => { assert("Version"@.len() == 7); assert("Float"@.len() == 5); },
        (DataType::Version, DataType::Boolean) => { assert("Version"@[0] == 'V'); assert("Boolean"@[0] == 'B'); assert(sa[0] == sb[0]); },
        (DataType::Version, DataType::Binary) => { assert("Version"@.len() == 7); assert("Binary"@.len() == 6); },
        (DataType::Version, DataType::RecordData) => { assert("Version"@.len() == 7); assert("RecordData"@.len() == 10); },
        (DataType::Version, DataType::Version) => {},
        (DataType::Version, DataType::EvrString) => { assert("Version"@.len() == 7); assert("EvrString"@.len() == 9); },
        (DataType::EvrString, DataType::String) => { assert("EvrString"@.len() == 9); assert("String"@.len() == 6); },
        (DataType::EvrString, DataType::Int) => { assert("EvrString"@.len() == 9); assert("Int"@.len() == 3); },
        (DataType::EvrString, DataType::Float) => { assert("EvrString"@.len() == 9); assert("Float"@.len() == 5); },
        (DataType::EvrString, DataType::Boolean) => { assert("EvrString"@.len() == 9); assert("Boolean"@.len() == 7); },
        (DataType::EvrString, DataType::Binary) => { assert("EvrString"@.len() == 9); assert("Binary"@.len() == 6); },
        (DataType::EvrString, DataType::RecordData) => { assert("EvrString"@.len() == 9); assert("RecordData"@.len() == 10); },
        (DataType::EvrString, DataType::Version) => { assert("EvrString"@.len() == 9); assert("Version"@.len() == 7); },
        (DataType::EvrString, DataType::EvrString) => {},
    }
}

/// Parse one field of the state `state_id`.
fn parse_state_field_from_json(field_json: &JsonValue, state_id: &str) -> (res: Result<StateField, ResolutionError>)
    ensures
        match res {
            Ok(f) => state_field_error(*field_json, state_id@) is None && state_field_parsed(*field_json, f),
            Err(e) => e matches ResolutionError::InvalidInput { message } && state_field_error(*field_json, state_id@) == Some(message@),
        },
{
    let name = match member_str(field_json, "name") {
        Some(x) => x,
        None => {
            return Err(ResolutionError::InvalidInput { message: to_owned_string("State field missing name") });
        },
    };
    let dt_str = match member_str(field_json, "data_type") {
        Some(x) => x,
        None => {
            return Err(ResolutionError::InvalidInput { message: to_owned_string("State field missing data_type") });
        },
    };
    let data_type = match DataType::from_str(dt_str) {
        Some(t) => t,
        None => {
            return Err(ResolutionError::InvalidInput { message: concat2("Invalid data type: ", dt_str) });
        },
    };
    let op_str = match member_str(field_json, "operation") {
        Some(x) => x,
        None => {
            return Err(ResolutionError::InvalidInput { message: to_owned_string("State field missing operation") });
        },
    };
    let operation = match Operation::from_str(op_str) {
        Some(o) => o,
        None => {
            return Err(ResolutionError::InvalidInput { message: concat2("Invalid operation: ", op_str) });
        },
    };
    let value_json = match field_json.get("value") {
        Some(v) => v,
        None => {
            return Err(ResolutionError::InvalidInput { message: to_owned_string("State field missing value") });
        },
    };
    proof {
        let c = choose|t: DataType| data_type_name(t) == dt_str@;
        lemma_data_type_name_injective(c, data_type);
    }
    let ctx = concat5("state '", state_id, "' field '", name, "'");
    let value = match parse_typed_value(value_json, data_type, ctx.as_str()) {
        Ok(v) => v,
        Err(e) => {
            return Err(e);
        },
    };
    let entity_check = match parse_entity_check(field_json, "Entity check must be a string", "Invalid entity check: ") {
        Ok(c) => c,
        Err(e) => {
            return Err(e);
        },
    };
    Ok(StateField { name: to_owned_string(name), data_type, operation, value, entity_check })
}

/// The strings of a list, or `None` when one item is not a string.
pub open spec fn all_strings(items: Seq<JsonValue>) -> Option<Seq<Seq<char>>>
    decreases items.len(),
{
    if items.len() == 0 {
        Some(Seq::empty())
    } else {
        match all_strings(items.drop_last()) {
            None => None,
            Some(p) => match json_str(items.last()) {
                Some(x) => Some(p.push(x)),
                None => None,
            },
        }
    }
}

/// The path of the record field at position `fi` of record `ri` of the state
/// `sid`: a `components` list of strings or a dotted string; or the message
/// of the error it gives.
pub open spec fn record_path_outcome(j: JsonValue, sid: Seq<char>, ri: nat, fi: nat) -> Result<Seq<Seq<char>>, Seq<char>> {
    match json_get(j, "path"@) {
        None => Err("Record field "@ + decimal(fi) + " missing path in record "@ + decimal(ri) + " of state '"@ + sid + "'"@),
        Some(p) => match json_get(p, "components"@) {
            Some(JsonValue::Array(a)) => match all_strings(a@) {
                Some(c) => Ok(c),
                None => Err("Path component must be a string"@),
            },
            _ => match json_str(p) {
                Some(x) => Ok(dot_split(x)),
                None => Err("Record field "@ + decimal(fi) + " missing valid path in record "@ + decimal(ri) + " of state '"@
                    + sid + "'"@),
            },
        },
    }
}

/// Read the path of a record field.
fn parse_record_path(j: &JsonValue, state_id: &str, ri: usize, fi: usize) -> (res: Result<FieldPath, ResolutionError>)
    ensures
        match res {
            Ok(p) => record_path_outcome(*j, state_id@, ri as nat, fi as nat)
                == Ok::<Seq<Seq<char>>, Seq<char>>(views(p.components@)),
            Err(e) => e matches ResolutionError::InvalidInput { message }
                && record_path_outcome(*j, state_id@, ri as nat, fi as nat) == Err::<Seq<Seq<char>>, Seq<char>>(message@),
        },
{
    let rs = usize_to_string(ri);
    let fs = usize_to_string(fi);
    let p = match j.get("path") {
        Some(p) => p,
        None => {
            let head = concat4("Record field ", fs.as_str(), " missing path in record ", rs.as_str());
            return Err(ResolutionError::InvalidInput { message: concat4(head.as_str(), " of state '", state_id, "'") });
        },
    };
    if let Some(c) = p.get("components") {
        if let Some(items) = c.as_array() {
            let mut comps: Vec<String> = Vec::new();
            let mut i: usize = 0;
            proof {
                assert(items@.subrange(0, 0) =~= Seq::<JsonValue>::empty());
                assert(views(comps@) =~= Seq::<Seq<char>>::empty());
            }
            while i < items.len()
                invariant
                    i <= items@.len(),
                    json_get(*j, "path"@) == Some(*p),
                    json_get(*p, "components"@) == Some(JsonValue::Array(*items)),
                    all_strings(items@.subrange(0, i as int)) == Some(views(comps@)),
                decreases items@.len() - i,
            {
                proof {
                    let sub = items@.subrange(0, i + 1);
                    assert(sub.drop_last() =~= items@.subrange(0, i as int));
                    assert(sub.last() == items@[i as int]);
                }
                match items[i].as_str() {
                    Some(x) => {
                        let ghost before = views(comps@);
                        comps.push(to_owned_string(x));
                        proof { assert(views(comps@) =~= before.push(x@)); }
                    },
                    None => {
                        proof { lemma_all_strings_fails(items@, i + 1); }
                        return Err(ResolutionError::InvalidInput { message: to_owned_string("Path component must be a string") });
                    },
                }
                i = i + 1;
            }
            proof {
                assert(items@.subrange(0, items@.len() as int) =~= items@);
            }
            return Ok(FieldPath::new(comps));
        }
    }
    if let Some(x) = p.as_str() {
        let fp = FieldPath::from_dot_notation(x);
        return Ok(fp);
    }
    let head = concat4("Record field ", fs.as_str(), " missing valid path in record ", rs.as_str());
    Err(ResolutionError::InvalidInput { message: concat4(head.as_str(), " of state '", state_id, "'") })
}

/// Once a prefix holds a non-string, so does the whole list.
proof fn lemma_all_strings_fails(items: Seq<JsonValue>, k: int)
    requires
        0 <= k <= items.len(),
        all_strings(items.subrange(0, k)) is None,
    ensures
        all_strings(items) is None,
    decreases items.len() - k,
{
    if k == items.len() {
        assert(items.subrange(0, k) =~= items);
    } else {
        assert(items.subrange(0, k + 1).drop_last() =~= items.subrange(0, k));
        lemma_all_strings_fails(items, k + 1);
    }
}

/// The context of the value of field `fi` of record `ri` of the state `sid`.
pub open spec fn record_field_context(sid: Seq<char>, ri: nat, fi: nat) -> Seq<char> {
    "state '"@ + sid + "' record "@ + decimal(ri) + " field "@ + decimal(fi)
}

/// The message of the error the record field at position `fi` of record
/// `ri` of the state `sid` gives, if any.
pub open spec fn record_field_error(j: JsonValue, sid: Seq<char>, ri: nat, fi: nat) -> Option<Seq<char>> {
    if record_path_outcome(j, sid, ri, fi) is Err {
        Some(record_path_outcome(j, sid, ri, fi)->Err_0)
    } else if json_get_str(j, "data_type"@) is None {
        Some("Record field missing data_type"@)
    } else if !is_data_type_name(json_get_str(j, "data_type"@)->Some_0) {
        Some("Invalid record field data type: "@ + json_get_str(j, "data_type"@)->Some_0)
    } else if json_get_str(j, "operation"@) is None {
        Some("Record field missing operation"@)
    } else if operation_of(json_get_str(j, "operation"@)->Some_0) is None {
        Some("Invalid record field operation: "@ + json_get_str(j, "operation"@)->Some_0)
    } else if json_get(j, "value"@) is None {
        Some("Record field missing value"@)
    } else {
        let dt = choose|t: DataType| data_type_name(t) == json_get_str(j, "data_type"@)->Some_0;
        match typed_value_error(json_get(j, "value"@)->Some_0, dt, record_field_context(sid, ri, fi)) {
            Some(m) => Some(m),
            None => match entity_check_outcome(j, "Record field entity check must be a string"@,
                "Invalid record field entity check: "@) {
                Err(m) => Some(m),
                Ok(_) => None,
            },
        }
    }
}

/// `f` is the record field that the well-formed `j` describes.
pub open spec fn record_field_parsed(j: JsonValue, sid: Seq<char>, ri: nat, fi: nat, f: RecordField) -> bool {
    &&& record_path_outcome(j, sid, ri, fi) == Ok::<Seq<Seq<char>>, Seq<char>>(views(f.path.components@))
    &&& data_type_name(f.data_type) == json_get_str(j, "data_type"@)->Some_0
    &&& operation_of(json_get_str(j, "operation"@)->Some_0) == Some(f.operation)
    &&& typed_value_parsed(json_get(j, "value"@)->Some_0, f.data_type, f.value)
    &&& entity_check_outcome(j, "Record field entity check must be a string"@, "Invalid record field entity check: "@)
        == Ok::<Option<EntityCheck>, Seq<char>>(f.entity_check)
}

/// Parse the record field at position `fi` of record `ri` of the state `state_id`.
fn parse_record_field_from_json(field_json: &JsonValue, state_id: &str, ri: usize, fi: usize)
    -> (res: Result<RecordField, ResolutionError>)
    ensures
        match res {
            Ok(f) => record_field_error(*field_json, state_id@, ri as nat, fi as nat) is None
                && record_field_parsed(*field_json, state_id@, ri as nat, fi as nat, f),
            Err(e) => e matches ResolutionError::InvalidInput { message }
                && record_field_error(*field_json, state_id@, ri as nat, fi as nat) == Some(message@),
        },
{
    let path = match parse_record_path(field_json, state_id, ri, fi) {
        Ok(p) => p,
        Err(e) => {
            return Err(e);
        },
    };
    let dt_str = match member_str(field_json, "data_type") {
        Some(x) => x,
        None => {
            return Err(ResolutionError::InvalidInput { message: to_owned_string("Record field missing data_type") });
        },
    };
    let data_type = match DataType::from_str(dt_str) {
        Some(t) => t,
        None => {
            return Err(ResolutionError::InvalidInput { message: concat2("Invalid record field data type: ", dt_str) });
        },
    };
    let op_str = match member_str(field_json, "operation") {
        Some(x) => x,
        None => {
            return Err(ResolutionError::InvalidInput { message: to_owned_string("Record field missing operation") });
        },
    };
    let operation = match Operation::from_str(op_str) {
        Some(o) => o,
        None => {
            return Err(ResolutionError::InvalidInput { message: concat2("Invalid record field operation: ", op_str) });
        },
    };
    let value_json = match field_json.get("value") {
        Some(v) => v,
        None => {
            return Err(ResolutionError::InvalidInput { message: to_owned_string("Record field missing value") });
        },
    };
    proof {
        let c = choose|t: DataType| data_type_name(t) == dt_str@;
        lemma_data_type_name_injective(c, data_type);
    }
    let rs = usize_to_string(ri);
    let fs = usize_to_string(fi);
    let head = concat4("state '", state_id, "' record ", rs.as_str());
    let ctx = concat3(head.as_str(), " field ", fs.as_str());
    proof {
        assert(ctx@ =~= record_field_context(state_id@, ri as nat, fi as nat));
    }
    let value = match parse_typed_value(value_json, data_type, ctx.as_str()) {
        Ok(v) => v,
        Err(e) => {
            return Err(e);
        },
    };
    let entity_check = match parse_entity_check(field_json, "Record field entity check must be a string",
        "Invalid record field entity check: ") {
        Ok(c) => c,
        Err(e) => {
            return Err(e);
        },
    };
    Ok(RecordField { path, data_type, operation, value, entity_check })
}

/// The position and message of the first record field of a list that gives
/// an error, in record `ri` of the state `sid`.
pub open spec fn first_record_field_error(items: Seq<JsonValue>, sid: Seq<char>, ri: nat) -> Option<Seq<char>>
    decreases items.len(),
{
    if items.len() == 0 {
        None
    } else {
        match first_record_field_error(items.drop_last(), sid, ri) {
            Some(m) => Some(m),
            None => record_field_error(items.last(), sid, ri, (items.len() - 1) as nat),
        }
    }
}

/// Once a prefix holds an error, the first error of the whole list is that of the prefix.
proof fn lemma_first_record_field_error_extends(items: Seq<JsonValue>, k: int, sid: Seq<char>, ri: nat)
    requires
        0 <= k <= items.len(),
        first_record_field_error(items.subrange(0, k), sid, ri) is Some,
    ensures
        first_record_field_error(items, sid, ri) == first_record_field_error(items.subrange(0, k), sid, ri),
    decreases items.len() - k,
{
    if k == items.len() {
        assert(items.subrange(0, k) =~= items);
    } else {
        assert(items.subrange(0, k + 1).drop_last() =~= items.subrange(0, k));
        lemma_first_record_field_error_extends(items, k + 1, sid, ri);
    }
}

/// The context of the direct content of record `ri` of the state `sid`.
pub open spec fn direct_context(sid: Seq<char>, ri: nat) -> Seq<char> {
    "state '"@ + sid + "' record "@ + decimal(ri) + " direct content"@
}

/// The message of the error the content of record `ri` of the state `sid`
/// gives, if any: `{"Direct": {operation, value}}` or `{"Nested": {fields}}`.
pub open spec fn record_content_error(c: JsonValue, sid: Seq<char>, ri: nat) -> Option<Seq<char>> {
    if json_get(c, "Direct"@) is Some {
        let d = json_get(c, "Direct"@)->Some_0;
        if json_get_str(d, "operation"@) is None {
            Some("Direct record content missing operation"@)
        } else if operation_of(json_get_str(d, "operation"@)->Some_0) is None {
            Some("Invalid direct record operation: "@ + json_get_str(d, "operation"@)->Some_0)
        } else if json_get(d, "value"@) is None {
            Some("Direct record content missing value"@)
        } else {
            typed_value_error(json_get(d, "value"@)->Some_0, DataType::String, direct_context(sid, ri))
        }
    } else if json_get(c, "Nested"@) is Some {
        match json_get(json_get(c, "Nested"@)->Some_0, "fields"@) {
            Some(JsonValue::Array(a)) => first_record_field_error(a@, sid, ri),
            _ => Some("Nested record content missing fields"@),
        }
    } else {
        Some("Unknown record content type in record "@ + decimal(ri) + " of state '"@ + sid + "'"@)
    }
}

/// `rc` is the content that the well-formed `c` describes.
pub open spec fn record_content_parsed(c: JsonValue, sid: Seq<char>, ri: nat, rc: RecordContent) -> bool {
    if json_get(c, "Direct"@) is Some {
        let d = json_get(c, "Direct"@)->Some_0;
        rc matches RecordContent::Direct { operation, value }
            && operation_of(json_get_str(d, "operation"@)->Some_0) == Some(operation)
            && typed_value_parsed(json_get(d, "value"@)->Some_0, DataType::String, value)
    } else {
        let items = json_get(json_get(c, "Nested"@)->Some_0, "fields"@)->Some_0->Array_0@;
        rc matches RecordContent::Nested { fields } && fields@.len() == items.len()
            && forall|k: int| 0 <= k < items.len() ==> record_field_parsed(items[k], sid, ri, k as nat, #[trigger] fields@[k])
    }
}

/// Parse the content of record `ri` of the state `state_id`.
fn parse_record_content_from_json(content_json: &JsonValue, state_id: &str, ri: usize)
    -> (res: Result<RecordContent, ResolutionError>)
    ensures
        match res {
            Ok(rc) => record_content_error(*content_json, state_id@, ri as nat) is None
                && record_content_parsed(*content_json, state_id@, ri as nat, rc),
            Err(e) => e matches ResolutionError::InvalidInput { message }
                && record_content_error(*content_json, state_id@, ri as nat) == Some(message@),
        },
{
    if let Some(d) = content_json.get("Direct") {
        let op_str = match member_str(d, "operation") {
            Some(x) => x,
            None => {
                return Err(ResolutionError::InvalidInput { message: to_owned_string("Direct record content missing operation") });
            },
        };
        let operation = match Operation::from_str(op_str) {
            Some(o) => o,
            None => {
                return Err(ResolutionError::InvalidInput { message: concat2("Invalid direct record operation: ", op_str) });
            },
        };
        let value_json = match d.get("value") {
            Some(v) => v,
            None => {
                return Err(ResolutionError::InvalidInput { message: to_owned_string("Direct record content missing value") });
            },
        };
        let rs = usize_to_string(ri);
        let ctx = concat5("state '", state_id, "' record ", rs.as_str(), " direct content");
        let value = match parse_typed_value(value_json, DataType::String, ctx.as_str()) {
            Ok(v) => v,
            Err(e) => {
                return Err(e);
            },
        };
        return Ok(RecordContent::Direct { operation, value });
    }
    if let Some(n) = content_json.get("Nested") {
        let items = match n.get("fields") {
            Some(v) => match v.as_array() {
                Some(a) => a,
                None => {
                    return Err(ResolutionError::InvalidInput { message: to_owned_string("Nested record content missing fields") });
                },
            },
            None => {
                return Err(ResolutionError::InvalidInput { message: to_owned_string("Nested record content missing fields") });
            },
        };
        let mut fields: Vec<RecordField> = Vec::new();
        let mut i: usize = 0;
        proof {
            assert(items@.subrange(0, 0) =~= Seq::<JsonValue>::empty());
        }
        while i < items.len()
            invariant
                i <= items@.len(),
                json_get(*content_json, "Direct"@) is None,
                json_get(*content_json, "Nested"@) == Some(*n),
                json_get(*n, "fields"@) == Some(JsonValue::Array(*items)),
                first_record_field_error(items@.subrange(0, i as int), state_id@, ri as nat) is None,
                fields@.len() == i,
                forall|k: int| 0 <= k < i ==> record_field_parsed(items@[k], state_id@, ri as nat, k as nat, #[trigger] fields@[k]),
            decreases items@.len() - i,
        {
            proof {
                let sub = items@.subrange(0, i + 1);
                assert(sub.drop_last() =~= items@.subrange(0, i as int));
                assert(sub.last() == items@[i as int]);
            }
            match parse_record_field_from_json(&items[i], state_id, ri, i) {
                Ok(f) => {
                    fields.push(f);
                },
                Err(e) => {
                    proof { lemma_first_record_field_error_extends(items@, i + 1, state_id@, ri as nat); }
                    return Err(e);
                },
            }
            i = i + 1;
        }
        proof {
            assert(items@.subrange(0, items@.len() as int) =~= items@);
        }
        return Ok(RecordContent::Nested { fields });
    }
    let rs = usize_to_string(ri);
    Err(ResolutionError::InvalidInput {
        message: concat5("Unknown record content type in record ", rs.as_str(), " of state '", state_id, "'"),
    })
}

/// The data type of a record check, when present and not null, or the
/// message of the error it gives.
pub open spec fn record_type_outcome(j: JsonValue) -> Result<Option<DataType>, Seq<char>> {
    match json_get(j, "data_type"@) {
        Some(d) => if d is Null {
            Ok(None)
        } else {
            match json_str(d) {
                None => Err("Record check data_type must be a string"@),
                Some(x) => if is_data_type_name(x) {
                    Ok(Some(choose|t: DataType| data_type_name(t) == x))
                } else {
                    Err("Invalid record data type: "@ + x)
                },
            }
        },
        None => Ok(None),
    }
}

/// The message of the error record check `ri` of the state `sid` gives, if any.
pub open spec fn record_check_error(j: JsonValue, sid: Seq<char>, ri: nat) -> Option<Seq<char>> {
    match record_type_outcome(j) {
        Err(m) => Some(m),
        Ok(_) => match json_get(j, "content"@) {
            None => Some("Record check missing content"@),
            Some(c) => record_content_error(c, sid, ri),
        },
    }
}

/// `rc` is the record check that the well-formed `j` describes.
pub open spec fn record_check_parsed(j: JsonValue, sid: Seq<char>, ri: nat, rc: RecordCheck) -> bool {
    &&& record_type_outcome(j) == Ok::<Option<DataType>, Seq<char>>(rc.data_type)
    &&& record_content_parsed(json_get(j, "content"@)->Some_0, sid, ri, rc.content)
}

/// Parse record check `ri` of the state `state_id`.
fn parse_record_check_from_json(record_json: &JsonValue, state_id: &str, ri: usize)
    -> (res: Result<RecordCheck, ResolutionError>)
    ensures
        match res {
            Ok(rc) => record_check_error(*record_json, state_id@, ri as nat) is None
                && record_check_parsed(*record_json, state_id@, ri as nat, rc),
            Err(e) => e matches ResolutionError::InvalidInput { message }
                && record_check_error(*record_json, state_id@, ri as nat) == Some(message@),
        },
{
    let data_type = match record_json.get("data_type") {
        Some(d) => if d.is_null() {
            None
        } else {
            match d.as_str() {
                None => {
                    return Err(ResolutionError::InvalidInput { message: to_owned_string("Record check data_type must be a string") });
                },
                Some(x) => match DataType::from_str(x) {
                    Some(t) => {
                        proof {
                            let c = choose|k: DataType| data_type_name(k) == x@;
                            lemma_data_type_name_injective(c, t);
                        }
                        Some(t)
                    },
                    None => {
                        return Err(ResolutionError::InvalidInput { message: concat2("Invalid record data type: ", x) });
                    },
                },
            }
        },
        None => None,
    };
    let content_json = match record_json.get("content") {
        Some(c) => c,
        None => {
            return Err(ResolutionError::InvalidInput { message: to_owned_string("Record check missing content") });
        },
    };
    let content = match parse_record_content_from_json(content_json, state_id, ri) {
        Ok(c) => c,
        Err(e) => {
            return Err(e);
        },
    };
    Ok(RecordCheck { data_type, content })
}

/// The position and message of the first state field of a list that gives an error.
pub open spec fn first_state_field_error(items: Seq<JsonValue>, sid: Seq<char>) -> Option<Seq<char>>
    decreases items.len(),
{
    if items.len() == 0 {
        None
    } else {
        match first_state_field_error(items.drop_last(), sid) {
            Some(m) => Some(m),
            None => state_field_error(items.last(), sid),
        }
    }
}

/// The message of the first record check of a list that gives an error.
pub open spec fn first_record_check_error(items: Seq<JsonValue>, sid: Seq<char>) -> Option<Seq<char>>
    decreases items.len(),
{
    if items.len() == 0 {
        None
    } else {
        match first_record_check_error(items.drop_last(), sid) {
            Some(m) => Some(m),
            None => record_check_error(items.last(), sid, (items.len() - 1) as nat),
        }
    }
}

/// The message of the error a state declaration gives, if any.
pub open spec fn state_error(j: JsonValue) -> Option<Seq<char>> {
    match json_get_str(j, "id"@) {
        None => Some("State missing id"@),
        Some(id) => if !spec_is_valid_identifier(id) {
            Some("Invalid state identifier format: '"@ + id + "'"@)
        } else {
            match first_state_field_error(json_items(json_get(j, "fields"@)), id) {
                Some(m) => Some(m),
                None => match first_record_check_error(json_items(json_get(j, "record_checks"@)), id) {
                    Some(m) => Some(m),
                    None => if json_items(json_get(j, "fields"@)).len() == 0
                        && json_items(json_get(j, "record_checks"@)).len() == 0 {
                        Some("State '"@ + id + "' cannot be empty"@)
                    } else {
                        None
                    },
                },
            }
        },
    }
}

/// `st` is the state that the well-formed `j` describes.
pub open spec fn state_parsed(j: JsonValue, is_global: bool, st: StateDeclaration) -> bool {
    let id = json_get_str(j, "id"@)->Some_0;
    let fs = json_items(json_get(j, "fields"@));
    let rs = json_items(json_get(j, "record_checks"@));
    &&& st.identifier@ == id
    &&& st.is_global == is_global
    &&& st.fields@.len() == fs.len()
    &&& forall|k: int| 0 <= k < fs.len() ==> state_field_parsed(fs[k], #[trigger] st.fields@[k])
    &&& st.record_checks@.len() == rs.len()
    &&& forall|k: int| 0 <= k < rs.len() ==> record_check_parsed(rs[k], id, k as nat, #[trigger] st.record_checks@[k])
}

/// The items of an optional array member of `v`.
fn member_items<'a>(v: &'a JsonValue, key: &str, empty: &'a Vec<JsonValue>) -> (res: &'a Vec<JsonValue>)
    requires
        empty@.len() == 0,
    ensures
        res@ == json_items(json_get(*v, key@)),
{
    match v.get(key) {
        Some(m) => match m.as_array() {
            Some(a) => a,
            None => empty,
        },
        None => empty,
    }
}

/// Parse a state declaration.
pub fn parse_state_from_json(state_json: &JsonValue, is_global: bool) -> (res: Result<StateDeclaration, ResolutionError>)
    ensures
        match res {
            Ok(st) => state_error(*state_json) is None && state_parsed(*state_json, is_global, st),
            Err(e) => e matches ResolutionError::InvalidInput { message } && state_error(*state_json) == Some(message@),
        },
{
    let identifier = match member_str(state_json, "id") {
        Some(x) => x,
        None => {
            return Err(ResolutionError::InvalidInput { message: to_owned_string("State missing id") });
        },
    };
    if !is_valid_identifier(identifier) {
        return Err(ResolutionError::InvalidInput { message: concat3("Invalid state identifier format: '", identifier, "'") });
    }
    let empty: Vec<JsonValue> = Vec::new();
    let field_items = member_items(state_json, "fields", &empty);
    let mut fields: Vec<StateField> = Vec::new();
    let mut i: usize = 0;
    proof { assert(field_items@.subrange(0, 0) =~= Seq::<JsonValue>::empty()); }
    while i < field_items.len()
        invariant
            i <= field_items@.len(),
            field_items@ == json_items(json_get(*state_json, "fields"@)),
            json_get_str(*state_json, "id"@) == Some(identifier@),
            spec_is_valid_identifier(identifier@),
            first_state_field_error(field_items@.subrange(0, i as int), identifier@) is None,
            fields@.len() == i,
            forall|k: int| 0 <= k < i ==> state_field_parsed(field_items@[k], #[trigger] fields@[k]),
        decreases field_items@.len() - i,
    {
        proof {
            let sub = field_items@.subrange(0, i + 1);
            assert(sub.drop_last() =~= field_items@.subrange(0, i as int));
            assert(sub.last() == field_items@[i as int]);
        }
        match parse_state_field_from_json(&field_items[i], identifier) {
            Ok(f) => {
                fields.push(f);
            },
            Err(e) => {
                proof { lemma_first_state_field_error_extends(field_items@, i + 1, identifier@); }
                return Err(e);
            },
        }
        i = i + 1;
    }
    proof { assert(field_items@.subrange(0, field_items@.len() as int) =~= field_items@); }
    let empty2: Vec<JsonValue> = Vec::new();
    let check_items = member_items(state_json, "record_checks", &empty2);
    let mut checks: Vec<RecordCheck> = Vec::new();
    let mut r: usize = 0;
    proof { assert(check_items@.subrange(0, 0) =~= Seq::<JsonValue>::empty()); }
    while r < check_items.len()
        invariant
            r <= check_items@.len(),
            check_items@ == json_items(json_get(*state_json, "record_checks"@)),
            json_get_str(*state_json, "id"@) == Some(identifier@),
            spec_is_valid_identifier(identifier@),
            first_state_field_error(json_items(json_get(*state_json, "fields"@)), identifier@) is None,
            first_record_check_error(check_items@.subrange(0, r as int), identifier@) is None,
            checks@.len() == r,
            forall|k: int| 0 <= k < r ==> record_check_parsed(check_items@[k], identifier@, k as nat, #[trigger] checks@[k]),
        decreases check_items@.len() - r,
    {
        proof {
            let sub = check_items@.subrange(0, r + 1);
            assert(sub.drop_last() =~= check_items@.subrange(0, r as int));
            assert(sub.last() == check_items@[r as int]);
        }
        match parse_record_check_from_json(&check_items[r], identifier, r) {
            Ok(c) => {
                checks.push(c);
            },
            Err(e) => {
                proof { lemma_first_record_check_error_extends(check_items@, r + 1, identifier@); }
                return Err(e);
            },
        }
        r = r + 1;
    }
    proof { assert(check_items@.subrange(0, check_items@.len() as int) =~= check_items@); }
    if fields.len() == 0 && checks.len() == 0 {
        return Err(ResolutionError::InvalidInput { message: concat3("State '", identifier, "' cannot be empty") });
    }
    Ok(StateDeclaration { identifier: to_owned_string(identifier), fields, record_checks: checks, is_global })
}

/// Once a prefix holds an error, the first error of the whole list is that of the prefix.
proof fn lemma_first_state_field_error_extends(items: Seq<JsonValue>, k: int, sid: Seq<char>)
    requires
        0 <= k <= items.len(),
        first_state_field_error(items.subrange(0, k), sid) is Some,
    ensures
        first_state_field_error(items, sid) == first_state_field_error(items.subrange(0, k), sid),
    decreases items.len() - k,
{
    if k == items.len() {
        assert(items.subrange(0, k) =~= items);
    } else {
        assert(items.subrange(0, k + 1).drop_last() =~= items.subrange(0, k));
        lemma_first_state_field_error_extends(items, k + 1, sid);
    }
}

/// Once a prefix holds an error, the first error of the whole list is that of the prefix.
proof fn lemma_first_record_check_error_extends(items: Seq<JsonValue>, k: int, sid: Seq<char>)
    requires
        0 <= k <= items.len(),
        first_record_check_error(items.subrange(0, k), sid) is Some,
    ensures
        first_record_check_error(items, sid) == first_record_check_error(items.subrange(0, k), sid),
    decreases items.len() - k,
{
    if k == items.len() {
        assert(items.subrange(0, k) =~= items);
    } else {
        assert(items.subrange(0, k + 1).drop_last() =~= items.subrange(0, k));
        lemma_first_record_check_error_extends(items, k + 1, sid);
    }
}

/// The validations deferred for the variables a state refers to.
pub open spec fn state_deferrals(st: StateDeclaration) -> Seq<(ValidationType, Seq<char>, Seq<char>, Seq<char>)> {
    deferrals_to(ValidationType::VariableReference, st.identifier@, state_var_refs(st),
        "state field reference in '"@ + st.identifier@ + "'"@)
}

/// The validations deferred for a list of states, in order.
pub open spec fn states_deferrals(s: Seq<StateDeclaration>) -> Seq<(ValidationType, Seq<char>, Seq<char>, Seq<char>)>
    decreases s.len(),
{
    if s.len() == 0 {
        Seq::empty()
    } else {
        states_deferrals(s.drop_last()) + state_deferrals(s.last())
    }
}

/// Defer the validation of the variables a state refers to.
fn collect_state_variable_references(state: &StateDeclaration, context: &mut ResolutionContext)
    requires
        context_wf(*old(context)),
    ensures
        context_wf(*final(context)),
        deferrals(final(context).deferred_validations@) == deferrals(old(context).deferred_validations@) + state_deferrals(*state),
        *final(context) == (ResolutionContext { deferred_validations: final(context).deferred_validations, ..*old(context) }),
{
    let refs = state.get_variable_references();
    let ctx = concat3("state field reference in '", state.identifier.as_str(), "'");
    context.defer_all(ValidationType::VariableReference, state.identifier.as_str(), &refs, ctx.as_str());
}

/// The message of the first state declaration of a list that gives an error.
pub open spec fn first_state_error(items: Seq<JsonValue>) -> Option<Seq<char>>
    decreases items.len(),
{
    if items.len() == 0 {
        None
    } else {
        match first_state_error(items.drop_last()) {
            Some(m) => Some(m),
            None => state_error(items.last()),
        }
    }
}

/// Once a prefix holds an error, the first error of the whole list is that of the prefix.
proof fn lemma_first_state_error_extends(items: Seq<JsonValue>, k: int)
    requires
        0 <= k <= items.len(),
        first_state_error(items.subrange(0, k)) is Some,
    ensures
        first_state_error(items) == first_state_error(items.subrange(0, k)),
    decreases items.len() - k,
{
    if k == items.len() {
        assert(items.subrange(0, k) =~= items);
    } else {
        assert(items.subrange(0, k + 1).drop_last() =~= items.subrange(0, k));
        lemma_first_state_error_extends(items, k + 1);
    }
}

/// Parse a list of state declarations; the first that gives an error stops
/// the parse. The variables each state refers to are deferred for validation.
fn parse_state_list(items: &Vec<JsonValue>, is_global: bool, context: &mut ResolutionContext)
    -> (res: Result<Vec<StateDeclaration>, ResolutionError>)
    requires
        context_wf(*old(context)),
    ensures
        context_wf(*final(context)),
        final(context).parsing_errors@ == old(context).parsing_errors@,
        *final(context) == (ResolutionContext { deferred_validations: final(context).deferred_validations, ..*old(context) }),
        match res {
            Ok(states) => {
                &&& first_state_error(items@) is None
                &&& states@.len() == items@.len()
                &&& forall|k: int| 0 <= k < items@.len() ==> state_parsed(items@[k], is_global, #[trigger] states@[k])
                &&& deferrals(final(context).deferred_validations@)
                    == deferrals(old(context).deferred_validations@) + states_deferrals(states@)
            },
            Err(e) => e matches ResolutionError::InvalidInput { message } && first_state_error(items@) == Some(message@),
        },
{
    let ghost d0 = deferrals(context.deferred_validations@);
    let mut states: Vec<StateDeclaration> = Vec::new();
    let mut i: usize = 0;
    proof {
        assert(items@.subrange(0, 0) =~= Seq::<JsonValue>::empty());
        assert(deferrals(context.deferred_validations@) =~= d0 + states_deferrals(states@));
    }
    while i < items.len()
        invariant
            i <= items@.len(),
            context_wf(*context),
            context.parsing_errors@ == old(context).parsing_errors@,
            *context == (ResolutionContext { deferred_validations: context.deferred_validations, ..*old(context) }),
            first_state_error(items@.subrange(0, i as int)) is None,
            states@.len() == i,
            forall|k: int| 0 <= k < i ==> state_parsed(items@[k], is_global, #[trigger] states@[k]),
            deferrals(context.deferred_validations@) == d0 + states_deferrals(states@),
        decreases items@.len() - i,
    {
        proof {
            let sub = items@.subrange(0, i + 1);
            assert(sub.drop_last() =~= items@.subrange(0, i as int));
            assert(sub.last() == items@[i as int]);
        }
        match parse_state_from_json(&items[i], is_global) {
            Ok(st) => {
                collect_state_variable_references(&st, context);
                let ghost before = states@;
                states.push(st);
                proof {
                    assert(states@.drop_last() =~= before);
                    assert(deferrals(context.deferred_validations@) =~= d0 + states_deferrals(states@));
                }
            },
            Err(e) => {
                proof { lemma_first_state_error_extends(items@, i + 1); }
                return Err(e);
            },
        }
        i = i + 1;
    }
    proof {
        assert(items@.subrange(0, items@.len() as int) =~= items@);
    }
    Ok(states)
}

/// The local state declarations of a criterion, when it has a non-empty list.
pub open spec fn local_states_json(c: JsonValue) -> Seq<JsonValue> {
    match json_get(c, "local_states"@) {
        Some(JsonValue::Array(a)) => a@,
        _ => Seq::empty(),
    }
}

/// The message of the first local state of a list of criteria that gives an error.
pub open spec fn first_local_state_error(crits: Seq<JsonValue>) -> Option<Seq<char>>
    decreases crits.len(),
{
    if crits.len() == 0 {
        None
    } else {
        match first_local_state_error(crits.drop_last()) {
            Some(m) => Some(m),
            None => first_state_error(local_states_json(crits.last())),
        }
    }
}

/// `m` holds, under the position of each criterion with local states, the
/// states it declares.
pub open spec fn local_states_parsed(crits: Seq<JsonValue>, m: CtnMap<Vec<StateDeclaration>>) -> bool {
    &&& m.wf()
    &&& forall|c: usize| m.has(c) <==> (c < crits.len() && local_states_json(crits[c as int]).len() > 0)
    &&& forall|c: usize| #![trigger m.at(c)] m.has(c) ==> m.at(c)@.len() == local_states_json(crits[c as int]).len()
        && forall|k: int| 0 <= k < m.at(c)@.len() ==> state_parsed(local_states_json(crits[c as int])[k], false, #[trigger] m.at(c)@[k])
}

/// The validations the local states of the entries of a map defer, in entry order.
pub open spec fn entries_deferrals(s: Seq<(usize, Vec<StateDeclaration>)>) -> Seq<(ValidationType, Seq<char>, Seq<char>, Seq<char>)>
    decreases s.len(),
{
    if s.len() == 0 {
        Seq::empty()
    } else {
        entries_deferrals(s.drop_last()) + states_deferrals(s.last().1@)
    }
}

/// Once a prefix of the criteria holds an error, the first error of the
/// whole list is that of the prefix.
proof fn lemma_first_local_state_error_prefix(crits: Seq<JsonValue>, c: JsonValue)
    requires
        first_local_state_error(crits) is None,
        first_state_error(local_states_json(c)) is Some,
    ensures
        first_local_state_error(crits.push(c)) == first_state_error(local_states_json(c)),
{
    assert(crits.push(c).drop_last() =~= crits);
}

/// Parse the local states of the criterion `c` at position `ctn`, if it has any.
fn parse_criterion_local_states(c: &JsonValue, ctn: usize, seen: Ghost<Seq<JsonValue>>,
    context: &mut ResolutionContext, locals: &mut CtnMap<Vec<StateDeclaration>>) -> (res: Result<(), ResolutionError>)
    requires
        context_wf(*old(context)),
        seen@.len() == ctn,
        local_states_parsed(seen@, *old(locals)),
        first_local_state_error(seen@) is None,
        forall|k: usize| old(locals).has(k) ==> k < ctn,
    ensures
        context_wf(*final(context)),
        final(context).parsing_errors@ == old(context).parsing_errors@,
        *final(context) == (ResolutionContext { deferred_validations: final(context).deferred_validations, ..*old(context) }),
        match res {
            Ok(()) => {
                &&& local_states_parsed(seen@.push(*c), *final(locals))
                &&& first_local_state_error(seen@.push(*c)) is None
                &&& forall|k: usize| final(locals).has(k) ==> k <= ctn
                &&& deferrals(final(context).deferred_validations@) == deferrals(old(context).deferred_validations@)
                    + entries_deferrals(final(locals).entries@).subrange(entries_deferrals(old(locals).entries@).len() as int,
                        entries_deferrals(final(locals).entries@).len() as int)
                &&& entries_deferrals(final(locals).entries@).len() >= entries_deferrals(old(locals).entries@).len()
                &&& entries_deferrals(final(locals).entries@).subrange(0, entries_deferrals(old(locals).entries@).len() as int)
                    == entries_deferrals(old(locals).entries@)
            },
            Err(e) => e matches ResolutionError::InvalidInput { message }
                && first_local_state_error(seen@.push(*c)) == Some(message@),
        },
{
    let ghost all = seen@.push(*c);
    proof {
        assert(all.drop_last() =~= seen@);
        assert(all.last() == *c);
    }
    let ghost m0 = *locals;
    let ghost dn = entries_deferrals(m0.entries@).len() as int;
    let ghost d0 = deferrals(context.deferred_validations@);
    let empty: Vec<JsonValue> = Vec::new();
    let items = member_items(c, "local_states", &empty);
    if items.len() == 0 {
        proof {
            assert(local_states_json(*c).len() == 0);
            assert(first_state_error(local_states_json(*c)) is None);
            assert forall|k: usize| locals.has(k) <==> (k < all.len() && local_states_json(all[k as int]).len() > 0) by {
                if k < ctn { assert(all[k as int] == seen@[k as int]); }
            }
            assert forall|k: usize| #![trigger locals.at(k)] locals.has(k) implies locals.at(k)@.len() == local_states_json(all[k as int]).len()
                && forall|q: int| 0 <= q < locals.at(k)@.len() ==> state_parsed(local_states_json(all[k as int])[q], false, #[trigger] locals.at(k)@[q]) by {
                assert(all[k as int] == seen@[k as int]);
            }
            assert(entries_deferrals(locals.entries@).subrange(dn, dn) =~= Seq::<(ValidationType, Seq<char>, Seq<char>, Seq<char>)>::empty());
            assert(entries_deferrals(locals.entries@).subrange(0, dn) =~= entries_deferrals(m0.entries@));
            assert(deferrals(context.deferred_validations@) =~= d0 + Seq::<(ValidationType, Seq<char>, Seq<char>, Seq<char>)>::empty());
        }
        return Ok(());
    }
    proof {
        assert(local_states_json(*c) == items@);
    }
    let states = match parse_state_list(items, false, context) {
        Ok(st) => st,
        Err(e) => {
            proof { lemma_first_local_state_error_prefix(seen@, *c); }
            return Err(e);
        },
    };
    let ghost sv = states@;
    proof {
        assert(!m0.has(ctn));
    }
    locals.insert(ctn, states);
    proof {
        assert(locals.entries@ == m0.entries@.push((ctn, locals.at(ctn))));
        assert(locals.at(ctn)@ == sv);
        assert(locals.entries@.drop_last() =~= m0.entries@);
        assert(entries_deferrals(locals.entries@) == entries_deferrals(m0.entries@) + states_deferrals(sv));
        assert(entries_deferrals(locals.entries@).subrange(dn, entries_deferrals(locals.entries@).len() as int)
            =~= states_deferrals(sv));
        assert(entries_deferrals(locals.entries@).subrange(0, dn) =~= entries_deferrals(m0.entries@));
        assert forall|k: usize| locals.has(k) <==> (k < all.len() && local_states_json(all[k as int]).len() > 0) by {
            if k < ctn { assert(all[k as int] == seen@[k as int]); }
        }
        assert forall|k: usize| #![trigger locals.at(k)] locals.has(k) implies locals.at(k)@.len() == local_states_json(all[k as int]).len()
            && forall|q: int| 0 <= q < locals.at(k)@.len() ==> state_parsed(local_states_json(all[k as int])[q], false, #[trigger] locals.at(k)@[q]) by {
            if k != ctn { assert(all[k as int] == seen@[k as int]); }
        }
    }
    Ok(())
}

/// Parse the local states of the criteria of a definition, keyed by the
/// position of their criterion; the first state that gives an error stops
/// the parse.
fn extract_local_states_from_criteria(definition: &JsonValue, context: &mut ResolutionContext)
    -> (res: Result<CtnMap<Vec<StateDeclaration>>, ResolutionError>)
    requires
        context_wf(*old(context)),
        definition_criteria(*definition).len() <= usize::MAX,
    ensures
        context_wf(*final(context)),
        final(context).parsing_errors@ == old(context).parsing_errors@,
        *final(context) == (ResolutionContext { deferred_validations: final(context).deferred_validations, ..*old(context) }),
        match res {
            Ok(m) => {
                &&& first_local_state_error(definition_criteria(*definition)) is None
                &&& local_states_parsed(definition_criteria(*definition), m)
                &&& deferrals(final(context).deferred_validations@)
                    == deferrals(old(context).deferred_validations@) + entries_deferrals(m.entries@)
            },
            Err(e) => e matches ResolutionError::InvalidInput { message }
                && first_local_state_error(definition_criteria(*definition)) == Some(message@),
        },
{
    let empty: Vec<JsonValue> = Vec::new();
    let blocks = member_items(definition, "criteria", &empty);
    let ghost total = definition_criteria(*definition);
    let ghost d0 = deferrals(context.deferred_validations@);
    let mut locals: CtnMap<Vec<StateDeclaration>> = CtnMap::new();
    let mut counter: usize = 0;
    let ghost mut seen: Seq<JsonValue> = Seq::empty();
    let mut i: usize = 0;
    proof {
        assert(blocks@.subrange(0, 0) =~= Seq::<JsonValue>::empty());
        assert(deferrals(context.deferred_validations@) =~= d0 + entries_deferrals(locals.entries@));
    }
    while i < blocks.len()
        invariant
            i <= blocks@.len(),
            context_wf(*context),
            context.parsing_errors@ == old(context).parsing_errors@,
            *context == (ResolutionContext { deferred_validations: context.deferred_validations, ..*old(context) }),
            total == blocks_criteria(blocks@),
            total == definition_criteria(*definition),
            total.len() <= usize::MAX,
            seen == blocks_criteria(blocks@.subrange(0, i as int)),
            counter == seen.len(),
            local_states_parsed(seen, locals),
            first_local_state_error(seen) is None,
            forall|k: usize| locals.has(k) ==> k < counter,
            deferrals(context.deferred_validations@) == d0 + entries_deferrals(locals.entries@),
        decreases blocks@.len() - i,
    {
        let ghost bsub = blocks@.subrange(0, i + 1);
        proof {
            assert(bsub.drop_last() =~= blocks@.subrange(0, i as int));
            assert(bsub.last() == blocks@[i as int]);
            lemma_blocks_prefix(blocks@, i + 1);
        }
        let empty_content: Vec<JsonValue> = Vec::new();
        let content = member_items(&blocks[i], "content", &empty_content);
        let ghost base = seen;
        let mut j: usize = 0;
        proof {
            assert(content@.subrange(0, 0) =~= Seq::<JsonValue>::empty());
            assert(base + content_criteria(content@.subrange(0, 0)) =~= base);
        }
        while j < content.len()
            invariant
                j <= content@.len(),
                context_wf(*context),
                context.parsing_errors@ == old(context).parsing_errors@,
                *context == (ResolutionContext { deferred_validations: context.deferred_validations, ..*old(context) }),
            *context == (ResolutionContext { deferred_validations: context.deferred_validations, ..*old(context) }),
                total == blocks_criteria(blocks@),
                total == definition_criteria(*definition),
                content@ == json_items(json_get(blocks@[i as int], "content"@)),
                base + content_criteria(content@) == blocks_criteria(bsub),
                blocks_criteria(bsub).len() <= usize::MAX,
                blocks_criteria(bsub).is_prefix_of(total),
                seen == base + content_criteria(content@.subrange(0, j as int)),
                counter == seen.len(),
                local_states_parsed(seen, locals),
                first_local_state_error(seen) is None,
                forall|k: usize| locals.has(k) ==> k < counter,
                deferrals(context.deferred_validations@) == d0 + entries_deferrals(locals.entries@),
            decreases content@.len() - j,
        {
            let ghost csub = content@.subrange(0, j + 1);
            proof {
                assert(csub.drop_last() =~= content@.subrange(0, j as int));
                assert(csub.last() == content@[j as int]);
                lemma_content_prefix(content@, j + 1);
            }
            if let Some(c) = content[j].get("Criterion") {
                let ghost eb = entries_deferrals(locals.entries@);
                match parse_criterion_local_states(c, counter, Ghost(seen), context, &mut locals) {
                    Ok(()) => {},
                    Err(e) => {
                        proof {
                            let next = seen.push(*c);
                            assert(content_criteria(csub) == content_criteria(content@.subrange(0, j as int)).push(*c));
                            assert(base + content_criteria(csub) =~= next);
                            let cc = content_criteria(content@);
                            let pc = content_criteria(csub);
                            assert(pc =~= cc.subrange(0, pc.len() as int));
                            let bb = blocks_criteria(bsub);
                            assert(next =~= bb.subrange(0, next.len() as int));
                            assert(bb.is_prefix_of(total));
                            assert(next =~= total.subrange(0, next.len() as int));
                            lemma_local_state_error_prefix_of(total, next);
                        }
                        return Err(e);
                    },
                }
                proof {
                    let next = seen.push(*c);
                    let ne = entries_deferrals(locals.entries@);
                    assert(ne =~= eb + ne.subrange(eb.len() as int, ne.len() as int));
                    assert(deferrals(context.deferred_validations@) =~= d0 + ne);
                    assert(content_criteria(csub) == content_criteria(content@.subrange(0, j as int)).push(*c));
                    assert(base + content_criteria(csub) =~= next);
                    seen = next;
                }
                counter = counter + 1;
            } else {
                proof {
                    assert(content_criteria(csub) == content_criteria(content@.subrange(0, j as int)));
                }
            }
            j = j + 1;
        }
        proof {
            assert(content@.subrange(0, content@.len() as int) =~= content@);
        }
        i = i + 1;
    }
    proof {
        assert(blocks@.subrange(0, blocks@.len() as int) =~= blocks@);
    }
    Ok(locals)
}

/// An error among the criteria seen so far is the first error of all the
/// criteria, when the seen ones are a prefix of them.
proof fn lemma_local_state_error_prefix_of(total: Seq<JsonValue>, seen: Seq<JsonValue>)
    requires
        seen.len() <= total.len(),
        total.subrange(0, seen.len() as int) == seen,
        first_local_state_error(seen) is Some,
    ensures
        first_local_state_error(total) == first_local_state_error(seen),
    decreases total.len() - seen.len(),
{
    if seen.len() == total.len() {
        assert(total =~= seen);
    } else {
        let next = total.subrange(0, seen.len() as int + 1);
        assert(next.drop_last() =~= seen);
        assert(total.subrange(0, next.len() as int) =~= next);
        lemma_local_state_error_prefix_of(total, next);
    }
}

/// Parse the global states of the definition of an AST and the local states
/// of its criteria; the variables each state refers to are deferred for
/// validation in the context.
pub fn extract_states_from_json(ast_json: &JsonValue, context: &mut ResolutionContext)
    -> (res: Result<(Vec<StateDeclaration>, CtnMap<Vec<StateDeclaration>>), ResolutionError>)
    requires
        context_wf(*old(context)),
        json_get(*ast_json, "definition"@) matches Some(d) ==> definition_criteria(d).len() <= usize::MAX,
    ensures
        context_wf(*final(context)),
        final(context).parsing_errors@ == old(context).parsing_errors@,
        *final(context) == (ResolutionContext { deferred_validations: final(context).deferred_validations, ..*old(context) }),
        match res {
            Ok(r) => json_get(*ast_json, "definition"@) matches Some(d) && {
                let items = json_items(json_get(d, "states"@));
                let crits = definition_criteria(d);
                &&& first_state_error(items) is None
                &&& r.0@.len() == items.len()
                &&& forall|k: int| 0 <= k < items.len() ==> state_parsed(items[k], true, #[trigger] r.0@[k])
                &&& first_local_state_error(crits) is None
                &&& local_states_parsed(crits, r.1)
                &&& deferrals(final(context).deferred_validations@) == deferrals(old(context).deferred_validations@)
                    + states_deferrals(r.0@) + entries_deferrals(r.1.entries@)
            },
            Err(e) => e matches ResolutionError::InvalidInput { message } && match json_get(*ast_json, "definition"@) {
                None => message@ == "No definition found in AST"@,
                Some(d) => match first_state_error(json_items(json_get(d, "states"@))) {
                    Some(m) => message@ == m,
                    None => first_local_state_error(definition_criteria(d)) == Some(message@),
                },
            },
        },
{
    let definition = match ast_json.get("definition") {
        Some(d) => d,
        None => {
            return Err(ResolutionError::InvalidInput { message: to_owned_string("No definition found in AST") });
        },
    };
    let empty: Vec<JsonValue> = Vec::new();
    let items = member_items(definition, "states", &empty);
    let ghost d0 = deferrals(context.deferred_validations@);
    let globals = match parse_state_list(items, true, context) {
        Ok(g) => g,
        Err(e) => {
            return Err(e);
        },
    };
    let ghost d1 = deferrals(context.deferred_validations@);
    let locals = match extract_local_states_from_criteria(definition, context) {
        Ok(l) => l,
        Err(e) => {
            return Err(e);
        },
    };
    Ok((globals, locals))
}

/// The state references of a list, or the message of the first error.
pub open spec fn state_refs_outcome(items: Seq<JsonValue>, ctx: Seq<char>) -> Result<Seq<Seq<char>>, Seq<char>>
    decreases items.len(),
{
    if items.len() == 0 {
        Ok(Seq::empty())
    } else {
        match state_refs_outcome(items.drop_last(), ctx) {
            Err(m) => Err(m),
            Ok(p) => match json_get_str(items.last(), "state_id"@) {
                None => Err("State reference missing state_id in "@ + ctx),
                Some(id) => if spec_is_valid_identifier(id) {
                    Ok(p.push(id))
                } else {
                    Err("Invalid state ID format '"@ + id + "' in "@ + ctx)
                },
            },
        }
    }
}

/// Once a prefix of the references fails, the whole list fails the same way.
proof fn lemma_state_refs_error_extends(items: Seq<JsonValue>, k: int, ctx: Seq<char>)
    requires
        0 <= k <= items.len(),
        state_refs_outcome(items.subrange(0, k), ctx) is Err,
    ensures
        state_refs_outcome(items, ctx) == state_refs_outcome(items.subrange(0, k), ctx),
    decreases items.len() - k,
{
    if k == items.len() {
        assert(items.subrange(0, k) =~= items);
    } else {
        assert(items.subrange(0, k + 1).drop_last() =~= items.subrange(0, k));
        lemma_state_refs_error_extends(items, k + 1, ctx);
    }
}

/// Parse a list of state references (`{"state_id": ...}` objects).
pub fn extract_state_references_from_json(refs_json: &JsonValue, context: &str) -> (res: Result<Vec<StateRef>, ResolutionError>)
    ensures
        match res {
            Ok(refs) => refs_json matches JsonValue::Array(a) && state_refs_outcome(a@, context@)
                == Ok::<Seq<Seq<char>>, Seq<char>>(refs@.map_values(|r: StateRef| r.state_id@)),
            Err(e) => e matches ResolutionError::InvalidInput { message } && match refs_json {
                JsonValue::Array(a) => state_refs_outcome(a@, context@) == Err::<Seq<Seq<char>>, Seq<char>>(message@),
                _ => message@ == "State references must be an array in "@ + context@,
            },
        },
{
    let items = match refs_json.as_array() {
        Some(a) => a,
        None => {
            return Err(ResolutionError::InvalidInput { message: concat2("State references must be an array in ", context) });
        },
    };
    let mut refs: Vec<StateRef> = Vec::new();
    let mut i: usize = 0;
    proof {
        assert(items@.subrange(0, 0) =~= Seq::<JsonValue>::empty());
        assert(refs@.map_values(|r: StateRef| r.state_id@) =~= Seq::<Seq<char>>::empty());
    }
    while i < items.len()
        invariant
            i <= items@.len(),
            *refs_json == JsonValue::Array(*items),
            state_refs_outcome(items@.subrange(0, i as int), context@)
                == Ok::<Seq<Seq<char>>, Seq<char>>(refs@.map_values(|r: StateRef| r.state_id@)),
        decreases items@.len() - i,
    {
        proof {
            let sub = items@.subrange(0, i + 1);
            assert(sub.drop_last() =~= items@.subrange(0, i as int));
            assert(sub.last() == items@[i as int]);
        }
        let id = match member_str(&items[i], "state_id") {
            Some(x) => x,
            None => {
                proof { lemma_state_refs_error_extends(items@, i + 1, context@); }
                return Err(ResolutionError::InvalidInput { message: concat2("State reference missing state_id in ", context) });
            },
        };
        if !is_valid_identifier(id) {
            proof { lemma_state_refs_error_extends(items@, i + 1, context@); }
            return Err(ResolutionError::InvalidInput { message: concat4("Invalid state ID format '", id, "' in ", context) });
        }
        let ghost before = refs@.map_values(|r: StateRef| r.state_id@);
        refs.push(StateRef::new(id));
        proof {
            assert(refs@.map_values(|r: StateRef| r.state_id@) =~= before.push(id@));
        }
        i = i + 1;
    }
    proof {
        assert(items@.subrange(0, items@.len() as int) =~= items@);
    }
    Ok(refs)
}

} // verus!
