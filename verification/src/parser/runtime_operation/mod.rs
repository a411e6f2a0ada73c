//! RUN operations: the context collected while parsing them, their
//! dependencies and structural checks.

use vstd::prelude::*;
use crate::strings::{concat2, concat3, concat4, concat5, to_owned_string, usize_to_string, decimal,
    is_valid_identifier, spec_is_valid_identifier, trim_str, i64_to_string};
use crate::json::{JsonValue, json_get, json_get_str, json_str};
use crate::types::common::Value;
use crate::types::runtime_operation::{RuntimeOperation, RuntimeOperationType, RunParameter, ArithmeticOperator,
    params_var_refs, params_object_refs, params_ok, params_message, arithmetic_operator_of, runtime_operation_name,
    spec_requires_parameters};
use crate::types::resolution_context::{DeferredValidation, ResolutionContext, ValidationType, deferrals};
use crate::resolution::dag::views;
use crate::resolution::error::{ResolutionError, invalid_input_debug, debug_invalid_input};
use crate::parser::variable::{parse_value_from_json, value_json_ok, value_from_json, json_int};

pub mod error;

verus! {

/// What RUN operation parsing collects besides the operations: non-fatal
/// errors, references to validate later, and the references seen.
#[derive(Debug)]
pub struct RuntimeOperationParsingContext {
    /// Parsing errors that are non-fatal.
    pub parsing_errors: Vec<String>,
    /// Validations to run once everything is parsed.
    pub deferred_validations: Vec<DeferredValidation>,
    /// Variable references found: (source, target, context).
    pub variable_references: Vec<(String, String, String)>,
    /// Object references found: (source, target, context).
    pub object_references: Vec<(String, String, String)>,
    /// The variables that RUN operations compute.
    pub run_operation_targets: Vec<String>,
}

impl RuntimeOperationParsingContext {
    /// An empty parsing context.
    pub fn new() -> (res: RuntimeOperationParsingContext)
        ensures
            res.parsing_errors@.len() == 0,
            res.deferred_validations@.len() == 0,
            res.variable_references@.len() == 0,
            res.object_references@.len() == 0,
            res.run_operation_targets@.len() == 0,
    {
        RuntimeOperationParsingContext {
            parsing_errors: Vec::new(),
            deferred_validations: Vec::new(),
            variable_references: Vec::new(),
            object_references: Vec::new(),
            run_operation_targets: Vec::new(),
        }
    }

    /// Record a non-fatal parsing error.
    pub fn add_parsing_error(&mut self, error: String)
        ensures
            *final(self) == (RuntimeOperationParsingContext { parsing_errors: final(self).parsing_errors, ..*old(self) }),
            final(self).parsing_errors@ == old(self).parsing_errors@.push(error),
    {
        self.parsing_errors.push(error);
    }

    /// Record a reference to a variable, to validate later.
    pub fn defer_variable_reference(&mut self, source: String, target: String, context: String)
        ensures
            *final(self) == (RuntimeOperationParsingContext {
                variable_references: final(self).variable_references,
                deferred_validations: final(self).deferred_validations,
                ..*old(self)
            }),
            final(self).variable_references@ == old(self).variable_references@.push((source, target, context)),
            final(self).deferred_validations@ == old(self).deferred_validations@.push(DeferredValidation {
                validation_type: ValidationType::VariableReference,
                source_symbol: source,
                target_symbol: target,
                context,
            }),
    {
        self.variable_references.push((source.clone(), target.clone(), context.clone()));
        self.deferred_validations.push(DeferredValidation {
            validation_type: ValidationType::VariableReference,
            source_symbol: source,
            target_symbol: target,
            context,
        });
    }

    /// Record an extraction of an object field, to validate later.
    pub fn defer_object_field_extraction(&mut self, source: String, target: String, context: String)
        ensures
            *final(self) == (RuntimeOperationParsingContext {
                object_references: final(self).object_references,
                deferred_validations: final(self).deferred_validations,
                ..*old(self)
            }),
            final(self).object_references@ == old(self).object_references@.push((source, target, context)),
            final(self).deferred_validations@ == old(self).deferred_validations@.push(DeferredValidation {
                validation_type: ValidationType::ObjectFieldExtraction,
                source_symbol: source,
                target_symbol: target,
                context,
            }),
    {
        self.object_references.push((source.clone(), target.clone(), context.clone()));
        self.deferred_validations.push(DeferredValidation {
            validation_type: ValidationType::ObjectFieldExtraction,
            source_symbol: source,
            target_symbol: target,
            context,
        });
    }

    /// Record the variable that a RUN operation computes, to validate later.
    pub fn defer_run_operation_target(&mut self, source: String, target: String, context: String)
        ensures
            *final(self) == (RuntimeOperationParsingContext {
                run_operation_targets: final(self).run_operation_targets,
                deferred_validations: final(self).deferred_validations,
                ..*old(self)
            }),
            final(self).run_operation_targets@ == old(self).run_operation_targets@.push(target),
            final(self).deferred_validations@ == old(self).deferred_validations@.push(DeferredValidation {
                validation_type: ValidationType::RunOperationTarget,
                source_symbol: source,
                target_symbol: target,
                context,
            }),
    {
        self.run_operation_targets.push(target.clone());
        self.deferred_validations.push(DeferredValidation {
            validation_type: ValidationType::RunOperationTarget,
            source_symbol: source,
            target_symbol: target,
            context,
        });
    }

    /// Hand the errors and deferred validations over to the resolution
    /// context; the RUN targets are not carried further.
    pub fn apply_to_resolution_context(self, resolution_context: &mut ResolutionContext)
        ensures
            final(resolution_context).parsing_errors@ == old(resolution_context).parsing_errors@ + self.parsing_errors@,
            final(resolution_context).deferred_validations@
                == old(resolution_context).deferred_validations@ + self.deferred_validations@,
            *final(resolution_context) == (ResolutionContext {
                parsing_errors: final(resolution_context).parsing_errors,
                deferred_validations: final(resolution_context).deferred_validations,
                ..*old(resolution_context)
            }),
    {
        let mut errors = self.parsing_errors;
        let mut validations = self.deferred_validations;
        resolution_context.parsing_errors.append(&mut errors);
        resolution_context.deferred_validations.append(&mut validations);
    }
}

/// Parsed RUN operations with the context collected while parsing them.
#[derive(Debug)]
pub struct RuntimeOperationParsingResult {
    pub runtime_operations: Vec<RuntimeOperation>,
    pub context: RuntimeOperationParsingContext,
}

impl RuntimeOperationParsingResult {
    /// Pair the operations with their parsing context.
    pub fn new(runtime_operations: Vec<RuntimeOperation>, context: RuntimeOperationParsingContext)
        -> (res: RuntimeOperationParsingResult)
        ensures
            res.runtime_operations == runtime_operations,
            res.context == context,
    {
        RuntimeOperationParsingResult { runtime_operations, context }
    }
}

/// Whether some parameter of the operation refers to a variable.
pub fn has_variable_references_in_runtime_operation(runtime_operation: &RuntimeOperation) -> (res: bool)
    ensures
        res == (params_var_refs(runtime_operation.parameters@).len() > 0),
{
    runtime_operation.has_variable_references()
}

/// The variables the parameters of the operation refer to, in order.
pub fn get_variable_references_from_runtime_operation(runtime_operation: &RuntimeOperation) -> (res: Vec<String>)
    ensures
        res@.map_values(|r: String| r@) == params_var_refs(runtime_operation.parameters@),
{
    runtime_operation.get_variable_references()
}

/// The objects whose fields the parameters of the operation extract, in order.
pub fn get_object_dependencies_from_runtime_operation(runtime_operation: &RuntimeOperation) -> (res: Vec<String>)
    ensures
        res@.map_values(|r: String| r@) == params_object_refs(runtime_operation.parameters@),
{
    runtime_operation.get_object_dependencies()
}

/// Structural check of a RUN operation: the parameter its kind needs is present.
pub fn validate_runtime_operation(runtime_operation: &RuntimeOperation) -> (res: Result<(), ResolutionError>)
    ensures
        res is Ok <==> params_ok(runtime_operation.operation_type, runtime_operation.parameters@),
        res matches Err(e) ==> (e matches ResolutionError::InvalidInput { message }
            && message@ == "Runtime operation '"@ + runtime_operation.target_variable@ + "' validation failed: "@
                + params_message(runtime_operation.operation_type, runtime_operation.target_variable@)),
{
    match runtime_operation.validate() {
        Err(msg) => {
            let mut message = concat3("Runtime operation '", runtime_operation.target_variable.as_str(), "' validation failed: ");
            message.append(msg.as_str());
            Err(ResolutionError::InvalidInput { message })
        },
        Ok(()) => Ok(()),
    }
}

/// Put the parsed RUN operations into the resolution context and hand over
/// the errors and deferred validations.
pub fn apply_runtime_operation_parsing_to_context(parsing_result: RuntimeOperationParsingResult,
    resolution_context: &mut ResolutionContext)
    ensures
        final(resolution_context).runtime_operations == parsing_result.runtime_operations,
        final(resolution_context).parsing_errors@
            == old(resolution_context).parsing_errors@ + parsing_result.context.parsing_errors@,
        final(resolution_context).deferred_validations@
            == old(resolution_context).deferred_validations@ + parsing_result.context.deferred_validations@,
        *final(resolution_context) == (ResolutionContext {
            runtime_operations: final(resolution_context).runtime_operations,
            parsing_errors: final(resolution_context).parsing_errors,
            deferred_validations: final(resolution_context).deferred_validations,
            ..*old(resolution_context)
        }),
{
    resolution_context.runtime_operations = parsing_result.runtime_operations;
    parsing_result.context.apply_to_resolution_context(resolution_context);
}

/// A deferred validation as plain values.
pub type RunDeferral = (ValidationType, Seq<char>, Seq<char>, Seq<char>);

/// The variable a value in the AST form names, when it is a reference.
pub open spec fn json_value_variable(v: JsonValue) -> Option<Seq<char>> {
    if json_get_str(v, "String"@) is None && json_int(json_get(v, "Integer"@)) is None
        && crate::parser::variable::json_float(json_get(v, "Float"@)) is None
        && crate::parser::variable::json_bool(json_get(v, "Boolean"@)) is None
    {
        json_get_str(v, "Variable"@)
    } else {
        None
    }
}

/// The validation a value of the RUN operation `target` defers: the
/// variable it names, if it is a reference.
pub open spec fn value_deferrals(v: JsonValue, target: Seq<char>) -> Seq<RunDeferral> {
    match json_value_variable(v) {
        Some(n) => seq![(ValidationType::VariableReference, target, n, "value in runtime operation '"@ + target + "'"@)],
        None => Seq::empty(),
    }
}

/// The message of the error an arithmetic parameter gives, if any: either
/// `[operator, value]` or `{"operator": .., "value": ..}`.
pub open spec fn arithmetic_error(a: JsonValue, target: Seq<char>) -> Option<Seq<char>> {
    match a {
        JsonValue::Array(arr) => if arr@.len() != 2 {
            Some("ArithmeticOp parameter must be [operator, value] array"@)
        } else if json_str(arr@[0]) is None {
            Some("ArithmeticOp operator must be a string"@)
        } else if arithmetic_operator_of(json_str(arr@[0])->Some_0) is None {
            Some("Invalid arithmetic operator: "@ + json_str(arr@[0])->Some_0)
        } else if !value_json_ok(arr@[1]) {
            Some("Unknown value type in JSON"@)
        } else {
            None
        },
        _ => match json_get_str(a, "operator"@) {
            Some(op) => if arithmetic_operator_of(op) is None {
                Some("Invalid arithmetic operator: "@ + op)
            } else if json_get(a, "value"@) is None {
                Some("ArithmeticOp missing value"@)
            } else if !value_json_ok(json_get(a, "value"@)->Some_0) {
                Some("Unknown value type in JSON"@)
            } else {
                None
            },
            None => Some("Invalid ArithmeticOp format in runtime operation '"@ + target + "'"@),
        },
    }
}

/// The operator and operand of a well-formed arithmetic parameter.
pub open spec fn arithmetic_parts(a: JsonValue) -> (Seq<char>, JsonValue) {
    match a {
        JsonValue::Array(arr) => (json_str(arr@[0])->Some_0, arr@[1]),
        _ => (json_get_str(a, "operator"@)->Some_0, json_get(a, "value"@)->Some_0),
    }
}

/// The message of the error the parameter at position `i` of the RUN
/// operation `target` gives, if any.
pub open spec fn param_error(p: JsonValue, target: Seq<char>, i: nat) -> Option<Seq<char>> {
    if json_get(p, "Literal"@) is Some {
        if value_json_ok(json_get(p, "Literal"@)->Some_0) { None } else { Some("Unknown value type in JSON"@) }
    } else if json_get_str(p, "Variable"@) is Some {
        let v = json_get_str(p, "Variable"@)->Some_0;
        if spec_is_valid_identifier(v) { None } else { Some("Invalid variable identifier format: '"@ + v + "'"@) }
    } else if json_get(p, "ObjectExtraction"@) is Some {
        let o = json_get(p, "ObjectExtraction"@)->Some_0;
        if json_get_str(o, "object_id"@) is None {
            Some("ObjectExtraction missing object_id"@)
        } else if json_get_str(o, "field"@) is None {
            Some("ObjectExtraction missing field"@)
        } else if !spec_is_valid_identifier(json_get_str(o, "object_id"@)->Some_0) {
            Some("Invalid object identifier format: '"@ + json_get_str(o, "object_id"@)->Some_0 + "'"@)
        } else if !spec_is_valid_identifier(json_get_str(o, "field"@)->Some_0) {
            Some("Invalid field identifier format: '"@ + json_get_str(o, "field"@)->Some_0 + "'"@)
        } else {
            None
        }
    } else if json_get_str(p, "Pattern"@) is Some || json_get_str(p, "Delimiter"@) is Some
        || json_get_str(p, "Character"@) is Some || json_int(json_get(p, "StartPosition"@)) is Some
        || json_int(json_get(p, "Length"@)) is Some
    {
        None
    } else if json_get(p, "ArithmeticOp"@) is Some {
        arithmetic_error(json_get(p, "ArithmeticOp"@)->Some_0, target)
    } else {
        Some("Unknown run parameter type at index "@ + decimal(i) + " in runtime operation '"@ + target + "'"@)
    }
}

/// `rp` is the parameter that the well-formed `p` describes.
pub open spec fn param_parsed(p: JsonValue, rp: RunParameter) -> bool {
    if json_get(p, "Literal"@) is Some {
        rp matches RunParameter::Literal(v) && value_from_json(json_get(p, "Literal"@)->Some_0, v)
    } else if json_get_str(p, "Variable"@) is Some {
        rp matches RunParameter::Variable(n) && n@ == json_get_str(p, "Variable"@)->Some_0
    } else if json_get(p, "ObjectExtraction"@) is Some {
        let o = json_get(p, "ObjectExtraction"@)->Some_0;
        rp matches RunParameter::ObjectExtraction { object_id, field }
            && object_id@ == json_get_str(o, "object_id"@)->Some_0 && field@ == json_get_str(o, "field"@)->Some_0
    } else if json_get_str(p, "Pattern"@) is Some {
        rp matches RunParameter::Pattern(x) && x@ == json_get_str(p, "Pattern"@)->Some_0
    } else if json_get_str(p, "Delimiter"@) is Some {
        rp matches RunParameter::Delimiter(x) && x@ == json_get_str(p, "Delimiter"@)->Some_0
    } else if json_get_str(p, "Character"@) is Some {
        rp matches RunParameter::Character(x) && x@ == json_get_str(p, "Character"@)->Some_0
    } else if json_int(json_get(p, "StartPosition"@)) is Some {
        rp == RunParameter::StartPosition(json_int(json_get(p, "StartPosition"@))->Some_0)
    } else if json_int(json_get(p, "Length"@)) is Some {
        rp == RunParameter::Length(json_int(json_get(p, "Length"@))->Some_0)
    } else {
        let parts = arithmetic_parts(json_get(p, "ArithmeticOp"@)->Some_0);
        rp matches RunParameter::ArithmeticOp { operator, operand }
            && arithmetic_operator_of(parts.0) == Some(operator) && value_from_json(parts.1, operand)
    }
}

/// The validations a well-formed parameter at position `i` of the RUN
/// operation `target` defers.
pub open spec fn param_deferrals(p: JsonValue, target: Seq<char>, i: nat) -> Seq<RunDeferral> {
    if json_get(p, "Literal"@) is Some {
        value_deferrals(json_get(p, "Literal"@)->Some_0, target)
    } else if json_get_str(p, "Variable"@) is Some {
        seq![(ValidationType::VariableReference, target, json_get_str(p, "Variable"@)->Some_0,
            "parameter "@ + decimal(i) + " in RUN operation '"@ + target + "'"@)]
    } else if json_get(p, "ObjectExtraction"@) is Some {
        let o = json_get(p, "ObjectExtraction"@)->Some_0;
        seq![(ValidationType::ObjectFieldExtraction, target, json_get_str(o, "object_id"@)->Some_0,
            "ObjectExtraction parameter "@ + decimal(i) + " in RUN operation '"@ + target + "' extracting field '"@
                + json_get_str(o, "field"@)->Some_0 + "'"@)]
    } else if json_get_str(p, "Pattern"@) is Some || json_get_str(p, "Delimiter"@) is Some
        || json_get_str(p, "Character"@) is Some || json_int(json_get(p, "StartPosition"@)) is Some
        || json_int(json_get(p, "Length"@)) is Some
    {
        Seq::empty()
    } else {
        value_deferrals(arithmetic_parts(json_get(p, "ArithmeticOp"@)->Some_0).1, target)
    }
}

/// Parse a value of the RUN operation `target`, deferring the validation of
/// the variable it names.
fn parse_run_value(value_json: &JsonValue, target: &str, parsing_context: &mut RuntimeOperationParsingContext)
    -> (res: Result<Value, ResolutionError>)
    ensures
        match res {
            Ok(v) => value_json_ok(*value_json) && value_from_json(*value_json, v)
                && deferrals(final(parsing_context).deferred_validations@)
                    == deferrals(old(parsing_context).deferred_validations@) + value_deferrals(*value_json, target@),
            Err(e) => e matches ResolutionError::InvalidInput { message } && message@ == "Unknown value type in JSON"@
                && !value_json_ok(*value_json) && *final(parsing_context) == *old(parsing_context),
        },
        final(parsing_context).parsing_errors == old(parsing_context).parsing_errors,
{
    let ghost d0 = deferrals(parsing_context.deferred_validations@);
    let v = match parse_value_from_json(value_json) {
        Ok(v) => v,
        Err(e) => {
            return Err(e);
        },
    };
    if let Value::Variable(n) = &v {
        let ghost dv = parsing_context.deferred_validations@;
        parsing_context.defer_variable_reference(to_owned_string(target), n.clone(),
            concat3("value in runtime operation '", target, "'"));
        proof {
            assert(deferrals(parsing_context.deferred_validations@) =~= d0 + value_deferrals(*value_json, target@));
        }
    } else {
        proof {
            assert(deferrals(parsing_context.deferred_validations@) =~= d0 + value_deferrals(*value_json, target@));
        }
    }
    Ok(v)
}

/// Parse the parameter at position `index` of the RUN operation `target`,
/// deferring the validation of the variables and objects it names.
fn parse_run_parameter_from_json_with_context(parameter_json: &JsonValue, target: &str, index: usize,
    parsing_context: &mut RuntimeOperationParsingContext) -> (res: Result<RunParameter, ResolutionError>)
    ensures
        match res {
            Ok(rp) => param_error(*parameter_json, target@, index as nat) is None && param_parsed(*parameter_json, rp)
                && deferrals(final(parsing_context).deferred_validations@)
                    == deferrals(old(parsing_context).deferred_validations@) + param_deferrals(*parameter_json, target@, index as nat),
            Err(e) => e matches ResolutionError::InvalidInput { message }
                && param_error(*parameter_json, target@, index as nat) == Some(message@)
                && final(parsing_context).deferred_validations == old(parsing_context).deferred_validations,
        },
        views(old(parsing_context).parsing_errors@).is_prefix_of(views(final(parsing_context).parsing_errors@)),
{
    let ghost d0 = deferrals(parsing_context.deferred_validations@);
    let ghost e0 = views(parsing_context.parsing_errors@);
    let n = usize_to_string(index);
    if let Some(lit) = parameter_json.get("Literal") {
        match parse_run_value(lit, target, parsing_context) {
            Ok(v) => {
                return Ok(RunParameter::Literal(v));
            },
            Err(e) => {
                let dbg = debug_invalid_input("Unknown value type in JSON");
                parsing_context.add_parsing_error(concat2("Failed to parse literal parameter: ", dbg.as_str()));
                proof { assert(e0.is_prefix_of(views(parsing_context.parsing_errors@))); }
                return Err(e);
            },
        }
    }
    if let Some(v) = parameter_json.get_str("Variable") {
        if !is_valid_identifier(v) {
            return Err(ResolutionError::InvalidInput { message: concat3("Invalid variable identifier format: '", v, "'") });
        }
        let tail = concat2(target, "'");
        let msg = concat4("parameter ", n.as_str(), " in RUN operation '", tail.as_str());
        proof {
            assert(msg@ =~= "parameter "@ + decimal(index as nat) + " in RUN operation '"@ + target@ + "'"@);
        }
        parsing_context.defer_variable_reference(to_owned_string(target), to_owned_string(v), msg);
        proof {
            assert(deferrals(parsing_context.deferred_validations@) =~= d0 + param_deferrals(*parameter_json, target@, index as nat));
            assert(e0.is_prefix_of(views(parsing_context.parsing_errors@)));
        }
        return Ok(RunParameter::Variable(to_owned_string(v)));
    }
    if let Some(o) = parameter_json.get("ObjectExtraction") {
        let object_id = match o.get_str("object_id") {
            Some(x) => x,
            None => {
                return Err(ResolutionError::InvalidInput { message: to_owned_string("ObjectExtraction missing object_id") });
            },
        };
        let field = match o.get_str("field") {
            Some(x) => x,
            None => {
                return Err(ResolutionError::InvalidInput { message: to_owned_string("ObjectExtraction missing field") });
            },
        };
        if !is_valid_identifier(object_id) {
            return Err(ResolutionError::InvalidInput { message: concat3("Invalid object identifier format: '", object_id, "'") });
        }
        if !is_valid_identifier(field) {
            return Err(ResolutionError::InvalidInput { message: concat3("Invalid field identifier format: '", field, "'") });
        }
        let head = concat4("ObjectExtraction parameter ", n.as_str(), " in RUN operation '", target);
        let msg = concat4(head.as_str(), "' extracting field '", field, "'");
        proof {
            assert(msg@ =~= "ObjectExtraction parameter "@ + decimal(index as nat) + " in RUN operation '"@ + target@
                + "' extracting field '"@ + field@ + "'"@);
        }
        parsing_context.defer_object_field_extraction(to_owned_string(target), to_owned_string(object_id), msg);
        proof {
            assert(deferrals(parsing_context.deferred_validations@) =~= d0 + param_deferrals(*parameter_json, target@, index as nat));
            assert(e0.is_prefix_of(views(parsing_context.parsing_errors@)));
        }
        return Ok(RunParameter::ObjectExtraction { object_id: to_owned_string(object_id), field: to_owned_string(field) });
    }
    proof {
        assert(deferrals(parsing_context.deferred_validations@) =~= d0 + Seq::<RunDeferral>::empty());
    }
    if let Some(pattern) = parameter_json.get_str("Pattern") {
        if trim_str(pattern).unicode_len() == 0 {
            parsing_context.add_parsing_error(concat5("Empty pattern in parameter ", n.as_str(), " of runtime operation '",
                target, "'"));
        }
        proof { assert(e0.is_prefix_of(views(parsing_context.parsing_errors@))); }
        return Ok(RunParameter::Pattern(to_owned_string(pattern)));
    }
    if let Some(d) = parameter_json.get_str("Delimiter") {
        proof { assert(e0.is_prefix_of(views(parsing_context.parsing_errors@))); }
        return Ok(RunParameter::Delimiter(to_owned_string(d)));
    }
    if let Some(c) = parameter_json.get_str("Character") {
        proof { assert(e0.is_prefix_of(views(parsing_context.parsing_errors@))); }
        return Ok(RunParameter::Character(to_owned_string(c)));
    }
    if let Some(sp) = parameter_json.get("StartPosition") {
        if let Some(start) = sp.as_i64() {
            if start < 0 {
                let sv = i64_to_string(start);
                let head = concat4("Negative start position ", sv.as_str(), " in parameter ", n.as_str());
                parsing_context.add_parsing_error(concat4(head.as_str(), " of runtime operation '", target, "'"));
            }
            proof { assert(e0.is_prefix_of(views(parsing_context.parsing_errors@))); }
            return Ok(RunParameter::StartPosition(start));
        }
    }
    if let Some(l) = parameter_json.get("Length") {
        if let Some(len) = l.as_i64() {
            if len <= 0 {
                let lv = i64_to_string(len);
                let head = concat4("Non-positive length ", lv.as_str(), " in parameter ", n.as_str());
                parsing_context.add_parsing_error(concat4(head.as_str(), " of runtime operation '", target, "'"));
            }
            proof { assert(e0.is_prefix_of(views(parsing_context.parsing_errors@))); }
            return Ok(RunParameter::Length(len));
        }
    }
    if let Some(a) = parameter_json.get("ArithmeticOp") {
        return parse_arithmetic_op(a, target, index, parsing_context);
    }
    Err(ResolutionError::InvalidInput {
        message: concat5("Unknown run parameter type at index ", n.as_str(), " in runtime operation '", target, "'"),
    })
}

/// Parse an arithmetic parameter: `[operator, value]` or `{"operator": .., "value": ..}`.
fn parse_arithmetic_op(a: &JsonValue, target: &str, index: usize, parsing_context: &mut RuntimeOperationParsingContext)
    -> (res: Result<RunParameter, ResolutionError>)
    ensures
        match res {
            Ok(rp) => arithmetic_error(*a, target@) is None && {
                let parts = arithmetic_parts(*a);
                rp matches RunParameter::ArithmeticOp { operator, operand }
                    && arithmetic_operator_of(parts.0) == Some(operator) && value_from_json(parts.1, operand)
            } && deferrals(final(parsing_context).deferred_validations@)
                == deferrals(old(parsing_context).deferred_validations@) + value_deferrals(arithmetic_parts(*a).1, target@),
            Err(e) => e matches ResolutionError::InvalidInput { message } && arithmetic_error(*a, target@) == Some(message@)
                && final(parsing_context).deferred_validations == old(parsing_context).deferred_validations,
        },
        views(old(parsing_context).parsing_errors@).is_prefix_of(views(final(parsing_context).parsing_errors@)),
{
    let ghost e0 = views(parsing_context.parsing_errors@);
    let n = usize_to_string(index);
    if let Some(arr) = a.as_array() {
        if arr.len() != 2 {
            parsing_context.add_parsing_error(concat5("ArithmeticOp parameter ", n.as_str(),
                " must be array of [operator, value] in runtime operation '", target, "'"));
            proof { assert(e0.is_prefix_of(views(parsing_context.parsing_errors@))); }
            return Err(ResolutionError::InvalidInput {
                message: to_owned_string("ArithmeticOp parameter must be [operator, value] array"),
            });
        }
        let op = match arr[0].as_str() {
            Some(x) => x,
            None => {
                parsing_context.add_parsing_error(concat5("ArithmeticOp operator is not a string in parameter ", n.as_str(),
                    " of runtime operation '", target, "'"));
                proof { assert(e0.is_prefix_of(views(parsing_context.parsing_errors@))); }
                return Err(ResolutionError::InvalidInput { message: to_owned_string("ArithmeticOp operator must be a string") });
            },
        };
        let operator = match ArithmeticOperator::from_str(op) {
            Some(x) => x,
            None => {
                let head = concat4("Invalid arithmetic operator '", op, "' in parameter ", n.as_str());
                parsing_context.add_parsing_error(concat4(head.as_str(), " of runtime operation '", target, "'"));
                proof { assert(e0.is_prefix_of(views(parsing_context.parsing_errors@))); }
                return Err(ResolutionError::InvalidInput { message: concat2("Invalid arithmetic operator: ", op) });
            },
        };
        let operand = match parse_run_value(&arr[1], target, parsing_context) {
            Ok(v) => v,
            Err(e) => {
                return Err(e);
            },
        };
        return Ok(RunParameter::ArithmeticOp { operator, operand });
    }
    if let Some(op) = a.get_str("operator") {
        let operator = match ArithmeticOperator::from_str(op) {
            Some(x) => x,
            None => {
                return Err(ResolutionError::InvalidInput { message: concat2("Invalid arithmetic operator: ", op) });
            },
        };
        let value_json = match a.get("value") {
            Some(v) => v,
            None => {
                return Err(ResolutionError::InvalidInput { message: to_owned_string("ArithmeticOp missing value") });
            },
        };
        let operand = match parse_run_value(value_json, target, parsing_context) {
            Ok(v) => v,
            Err(e) => {
                return Err(e);
            },
        };
        return Ok(RunParameter::ArithmeticOp { operator, operand });
    }
    Err(ResolutionError::InvalidInput { message: concat3("Invalid ArithmeticOp format in runtime operation '", target, "'") })
}

/// The positions of the parameters of a list that parse, in order.
pub open spec fn good_params(items: Seq<JsonValue>, target: Seq<char>) -> Seq<int>
    decreases items.len(),
{
    if items.len() == 0 {
        Seq::empty()
    } else {
        good_params(items.drop_last(), target) + if param_error(items.last(), target, (items.len() - 1) as nat) is None {
            seq![items.len() - 1]
        } else {
            Seq::empty()
        }
    }
}

/// The validations the parameters of a list that parse defer, in order.
pub open spec fn params_deferrals(items: Seq<JsonValue>, target: Seq<char>) -> Seq<RunDeferral>
    decreases items.len(),
{
    if items.len() == 0 {
        Seq::empty()
    } else {
        params_deferrals(items.drop_last(), target) + if param_error(items.last(), target, (items.len() - 1) as nat) is None {
            param_deferrals(items.last(), target, (items.len() - 1) as nat)
        } else {
            Seq::empty()
        }
    }
}

/// The positions kept lie in the list.
proof fn lemma_good_params_bounded(items: Seq<JsonValue>, target: Seq<char>)
    ensures
        forall|k: int| 0 <= k < good_params(items, target).len() ==> 0 <= #[trigger] good_params(items, target)[k] < items.len(),
    decreases items.len(),
{
    if items.len() > 0 {
        let pre = items.drop_last();
        lemma_good_params_bounded(pre, target);
        let all = good_params(items, target);
        assert forall|k: int| 0 <= k < all.len() implies 0 <= #[trigger] all[k] < items.len() by {
            if k < good_params(pre, target).len() {
                assert(all[k] == good_params(pre, target)[k]);
            }
        }
    }
}

/// The parameter declarations of a RUN operation.
pub open spec fn run_params(j: JsonValue) -> Seq<JsonValue> {
    match json_get(j, "parameters"@) {
        Some(JsonValue::Array(a)) => a@,
        _ => Seq::empty(),
    }
}

/// Parse the parameters of the RUN operation `target` of kind `t`. A
/// parameter that does not parse is recorded as a parsing error and skipped.
fn parse_run_parameters_with_context(run_json: &JsonValue, target: &str, t: RuntimeOperationType,
    parsing_context: &mut RuntimeOperationParsingContext) -> (res: Result<Vec<RunParameter>, ResolutionError>)
    ensures
        match res {
            Ok(params) => {
                let items = run_params(*run_json);
                let pos = good_params(items, target@);
                &&& json_get(*run_json, "parameters"@) matches Some(JsonValue::Array(a))
                &&& !(spec_requires_parameters(t) && items.len() == 0)
                &&& params@.len() == pos.len()
                &&& forall|k: int| 0 <= k < pos.len() ==> param_parsed(items[pos[k]], #[trigger] params@[k])
                &&& deferrals(final(parsing_context).deferred_validations@)
                    == deferrals(old(parsing_context).deferred_validations@) + params_deferrals(items, target@)
            },
            Err(e) => e matches ResolutionError::InvalidInput { message }
                && final(parsing_context).deferred_validations == old(parsing_context).deferred_validations
                && match json_get(*run_json, "parameters"@) {
                    Some(JsonValue::Array(a)) => spec_requires_parameters(t) && a@.len() == 0
                        && message@ == "Runtime operation '"@ + target@ + "' of type "@ + runtime_operation_name(t)
                            + " requires parameters"@,
                    _ => message@ == "Runtime operation missing parameters"@,
                },
        },
        views(old(parsing_context).parsing_errors@).is_prefix_of(views(final(parsing_context).parsing_errors@)),
{
    let items = match run_json.get("parameters") {
        Some(v) => match v.as_array() {
            Some(a) => a,
            None => {
                return Err(ResolutionError::InvalidInput { message: to_owned_string("Runtime operation missing parameters") });
            },
        },
        None => {
            return Err(ResolutionError::InvalidInput { message: to_owned_string("Runtime operation missing parameters") });
        },
    };
    if t.requires_parameters() && items.len() == 0 {
        return Err(ResolutionError::InvalidInput {
            message: concat5("Runtime operation '", target, "' of type ", t.as_str(), " requires parameters"),
        });
    }
    let ghost d0 = deferrals(parsing_context.deferred_validations@);
    let ghost e0 = views(parsing_context.parsing_errors@);
    let mut params: Vec<RunParameter> = Vec::new();
    let mut i: usize = 0;
    proof {
        assert(items@.subrange(0, 0) =~= Seq::<JsonValue>::empty());
        assert(deferrals(parsing_context.deferred_validations@) =~= d0 + Seq::<RunDeferral>::empty());
    }
    while i < items.len()
        invariant
            i <= items@.len(),
            items@ == run_params(*run_json),
            params@.len() == good_params(items@.subrange(0, i as int), target@).len(),
            forall|k: int| 0 <= k < params@.len() ==> param_parsed(
                items@[good_params(items@.subrange(0, i as int), target@)[k]], #[trigger] params@[k]),
            deferrals(parsing_context.deferred_validations@) == d0 + params_deferrals(items@.subrange(0, i as int), target@),
            e0.is_prefix_of(views(parsing_context.parsing_errors@)),
        decreases items@.len() - i,
    {
        let ghost sub = items@.subrange(0, i + 1);
        let ghost pre = good_params(items@.subrange(0, i as int), target@);
        proof {
            assert(sub.drop_last() =~= items@.subrange(0, i as int));
            assert(sub.last() == items@[i as int]);
            lemma_good_params_bounded(items@.subrange(0, i as int), target@);
        }
        let ghost eb = views(parsing_context.parsing_errors@);
        match parse_run_parameter_from_json_with_context(&items[i], target, i, parsing_context) {
            Ok(rp) => {
                params.push(rp);
                proof {
                    assert(good_params(sub, target@) == pre.push(i as int));
                    assert forall|k: int| 0 <= k < params@.len() implies param_parsed(
                        items@[good_params(sub, target@)[k]], #[trigger] params@[k]) by {
                        if k < pre.len() {
                            assert(good_params(sub, target@)[k] == pre[k]);
                        }
                    }
                    assert(deferrals(parsing_context.deferred_validations@) =~= d0 + params_deferrals(sub, target@));
                }
            },
            Err(e) => {
                let msg = match &e {
                    ResolutionError::InvalidInput { message } => message.as_str(),
                    _ => "",
                };
                let n = usize_to_string(i);
                let head = concat5("Failed to parse parameter ", n.as_str(), " in runtime operation '", target, "': ");
                let dbg = debug_invalid_input(msg);
                let ghost pe = views(parsing_context.parsing_errors@);
                parsing_context.add_parsing_error(concat2(head.as_str(), dbg.as_str()));
                proof {
                    assert(good_params(sub, target@) =~= pre);
                    assert(deferrals(parsing_context.deferred_validations@) =~= d0 + params_deferrals(sub, target@));
                    assert(pe.is_prefix_of(views(parsing_context.parsing_errors@)));
                }
            },
        }
        proof {
            assert(e0.is_prefix_of(views(parsing_context.parsing_errors@)));
        }
        i = i + 1;
    }
    proof {
        assert(items@.subrange(0, items@.len() as int) =~= items@);
    }
    Ok(params)
}

/// The message of the error a RUN operation declaration gives, if any.
pub open spec fn run_error(j: JsonValue) -> Option<Seq<char>> {
    match json_get_str(j, "target_variable"@) {
        None => Some("Runtime operation missing target_variable"@),
        Some(t) => if !spec_is_valid_identifier(t) {
            Some("Invalid target variable identifier format: '"@ + t + "'"@)
        } else {
            match json_get_str(j, "operation_type"@) {
                None => Some("Runtime operation missing operation_type"@),
                Some(ot) => match runtime_operation_of(ot) {
                    None => Some("Invalid runtime operation type: "@ + ot),
                    Some(k) => match json_get(j, "parameters"@) {
                        Some(JsonValue::Array(a)) => if spec_requires_parameters(k) && a@.len() == 0 {
                            Some("Runtime operation '"@ + t + "' of type "@ + runtime_operation_name(k) + " requires parameters"@)
                        } else {
                            None
                        },
                        _ => Some("Runtime operation missing parameters"@),
                    },
                },
            }
        },
    }
}

/// The RUN operation kind spelled `s`, if any.
pub open spec fn runtime_operation_of(s: Seq<char>) -> Option<RuntimeOperationType> {
    if exists|t: RuntimeOperationType| runtime_operation_name(t) == s {
        Some(choose|t: RuntimeOperationType| runtime_operation_name(t) == s)
    } else {
        None
    }
}

/// The validations a RUN operation declaration defers: its target, once the
/// target is a valid identifier, and, when it parses, its parameters'.
pub open spec fn run_deferrals(j: JsonValue) -> Seq<RunDeferral> {
    match json_get_str(j, "target_variable"@) {
        Some(t) => if spec_is_valid_identifier(t) {
            seq![(ValidationType::RunOperationTarget, t, t, "RUN operation target variable '"@ + t + "'"@)]
                + if run_error(j) is None { params_deferrals(run_params(j), t) } else { Seq::empty() }
        } else {
            Seq::empty()
        },
        None => Seq::empty(),
    }
}

/// `op` is the RUN operation that the well-formed `j` describes.
pub open spec fn run_parsed(j: JsonValue, op: RuntimeOperation) -> bool {
    let t = json_get_str(j, "target_variable"@)->Some_0;
    let pos = good_params(run_params(j), t);
    &&& op.target_variable@ == t
    &&& runtime_operation_name(op.operation_type) == json_get_str(j, "operation_type"@)->Some_0
    &&& op.parameters@.len() == pos.len()
    &&& forall|k: int| 0 <= k < pos.len() ==> param_parsed(run_params(j)[pos[k]], #[trigger] op.parameters@[k])
}

/// Parse one RUN operation, deferring the validation of its target and of
/// what its parameters name. Parameters that do not suit the kind are
/// recorded as a parsing error.
fn parse_runtime_operation_from_json_with_context(run_json: &JsonValue, parsing_context: &mut RuntimeOperationParsingContext)
    -> (res: Result<RuntimeOperation, ResolutionError>)
    ensures
        match res {
            Ok(op) => run_error(*run_json) is None && run_parsed(*run_json, op),
            Err(e) => e matches ResolutionError::InvalidInput { message } && run_error(*run_json) == Some(message@),
        },
        deferrals(final(parsing_context).deferred_validations@)
            == deferrals(old(parsing_context).deferred_validations@) + run_deferrals(*run_json),
        views(old(parsing_context).parsing_errors@).is_prefix_of(views(final(parsing_context).parsing_errors@)),
{
    let ghost d0 = deferrals(parsing_context.deferred_validations@);
    let ghost e0 = views(parsing_context.parsing_errors@);
    let target = match run_json.get_str("target_variable") {
        Some(t) => t,
        None => {
            proof { assert(deferrals(parsing_context.deferred_validations@) =~= d0 + run_deferrals(*run_json)); }
            return Err(ResolutionError::InvalidInput { message: to_owned_string("Runtime operation missing target_variable") });
        },
    };
    if !is_valid_identifier(target) {
        proof { assert(deferrals(parsing_context.deferred_validations@) =~= d0 + run_deferrals(*run_json)); }
        return Err(ResolutionError::InvalidInput {
            message: concat3("Invalid target variable identifier format: '", target, "'"),
        });
    }
    parsing_context.defer_run_operation_target(to_owned_string(target), to_owned_string(target),
        concat3("RUN operation target variable '", target, "'"));
    let ghost d1 = deferrals(parsing_context.deferred_validations@);
    proof {
        assert(d1 =~= d0 + seq![(ValidationType::RunOperationTarget, target@, target@,
            "RUN operation target variable '"@ + target@ + "'"@)]);
    }
    let ot = match run_json.get_str("operation_type") {
        Some(x) => x,
        None => {
            proof { assert(deferrals(parsing_context.deferred_validations@) =~= d0 + run_deferrals(*run_json)); }
            return Err(ResolutionError::InvalidInput { message: to_owned_string("Runtime operation missing operation_type") });
        },
    };
    let operation_type = match RuntimeOperationType::from_str(ot) {
        Some(k) => k,
        None => {
            proof { assert(deferrals(parsing_context.deferred_validations@) =~= d0 + run_deferrals(*run_json)); }
            return Err(ResolutionError::InvalidInput { message: concat2("Invalid runtime operation type: ", ot) });
        },
    };
    proof {
        assert(runtime_operation_of(ot@) == Some(operation_type)) by {
            let c = choose|k: RuntimeOperationType| runtime_operation_name(k) == ot@;
            lemma_runtime_operation_name_injective(c, operation_type);
        }
    }
    let parameters = match parse_run_parameters_with_context(run_json, target, operation_type, parsing_context) {
        Ok(p) => p,
        Err(e) => {
            proof { assert(deferrals(parsing_context.deferred_validations@) =~= d0 + run_deferrals(*run_json)); }
            return Err(e);
        },
    };
    let op = RuntimeOperation { target_variable: to_owned_string(target), operation_type, parameters };
    let ghost e2 = views(parsing_context.parsing_errors@);
    match op.validate() {
        Ok(()) => {},
        Err(msg) => {
            let dbg = debug_invalid_input(msg.as_str());
            parsing_context.add_parsing_error(concat4("Parameter validation failed for runtime operation '", target, "': ",
                dbg.as_str()));
            proof { assert(e2.is_prefix_of(views(parsing_context.parsing_errors@))); }
        },
    }
    proof {
        assert(deferrals(parsing_context.deferred_validations@) =~= d0 + run_deferrals(*run_json));
    }
    Ok(op)
}

/// Distinct kinds are spelled differently.
proof fn lemma_runtime_operation_name_injective(a: RuntimeOperationType, b: RuntimeOperationType)
    requires
        runtime_operation_name(a) == runtime_operation_name(b),
    ensures
        a == b,
{
    reveal_strlit("CONCAT");
    reveal_strlit("SPLIT");
    reveal_strlit("SUBSTRING");
    reveal_strlit("REGEX_CAPTURE");
    reveal_strlit("ARITHMETIC");
    reveal_strlit("COUNT");
    reveal_strlit("UNIQUE");
    reveal_strlit("END");
    reveal_strlit("MERGE");
    reveal_strlit("EXTRACT");
    let sa = runtime_operation_name(a);
    let sb = runtime_operation_name(b);
    assert(sa.len() == sb.len());
    match (a, b) {
        (RuntimeOperationType::Concat, RuntimeOperationType::Concat) => {},
        (RuntimeOperationType::Concat, RuntimeOperationType::Split) => { assert("CONCAT"@.len() == 6); assert("SPLIT"@.len() == 5); },
        (RuntimeOperationType::Concat, RuntimeOperationType::Substring) => { assert("CONCAT"@.len() == 6); assert("SUBSTRING"@.len() == 9); },
        (RuntimeOperationType::Concat, RuntimeOperationType::RegexCapture) => { assert("CONCAT"@.len() == 6); assert("REGEX_CAPTURE"@.len() == 13); },
        (RuntimeOperationType::Concat, RuntimeOperationType::Arithmetic) => { assert("CONCAT"@.len() == 6); assert("ARITHMETIC"@.len() == 10); },
        (RuntimeOperationType::Concat, RuntimeOperationType::Count) => { assert("CONCAT"@.len() == 6); assert("COUNT"@.len() == 5); },
        (RuntimeOperationType::Concat, RuntimeOperationType::Unique) => { assert("CONCAT"@[0] == 'C'); assert("UNIQUE"@[0] == 'U'); assert(sa[0] == sb[0]); },
        (RuntimeOperationType::Concat, RuntimeOperationType::End) => { assert("CONCAT"@.len() == 6); assert("END"@.len() == 3); },
        (RuntimeOperationType::Concat, RuntimeOperationType::Merge) => { assert("CONCAT"@.len() == 6); assert("MERGE"@.len() == 5); },
        (RuntimeOperationType::Concat, RuntimeOperationType::Extract) => { assert("CONCAT"@.len() == 6); assert("EXTRACT"@.len() == 7); },
        (RuntimeOperationType::Split, RuntimeOperationType::Concat) => { assert("SPLIT"@.len() == 5); assert("CONCAT"@.len() == 6); },
        (RuntimeOperationType::Split, RuntimeOperationType::Split) => {},
        (RuntimeOperationType::Split, RuntimeOperationType::Substring) => { assert("SPLIT"@.len() == 5); assert("SUBSTRING"@.len() == 9); },
        (RuntimeOperationType::Split, RuntimeOperationType::RegexCapture) => { assert("SPLIT"@.len() == 5); assert("REGEX_CAPTURE"@.len() == 13); },
        (RuntimeOperationType::Split, RuntimeOperationType::Arithmetic) => { assert("SPLIT"@.len() == 5); assert("ARITHMETIC"@.len() == 10); },
        (RuntimeOperationType::Split, RuntimeOperationType::Count) => { assert("SPLIT"@[0] == 'S'); assert("COUNT"@[0] == 'C'); assert(sa[0] == sb[0]); },
        (RuntimeOperationType::Split, RuntimeOperationType::Unique) => { assert("SPLIT"@.len() == 5); assert("UNIQUE"@.len() == 6); },
        (RuntimeOperationType::Split, RuntimeOperationType::End) => { assert("SPLIT"@.len() == 5); assert("END"@.len() == 3); },
        (RuntimeOperationType::Split, RuntimeOperationType::Merge) => { assert("SPLIT"@[0] == 'S'); assert("MERGE"@[0] == 'M'); assert(sa[0] == sb[0]); },
        (RuntimeOperationType::Split, RuntimeOperationType::Extract) => { assert("SPLIT"@.len() == 5); assert("EXTRACT"@.len() == 7); },
        (RuntimeOperationType::Substring, RuntimeOperationType::Concat) => { assert("SUBSTRING"@.len() == 9); assert("CONCAT"@.len() == 6); },
        (RuntimeOperationType::Substring, RuntimeOperationType::Split) => { assert("SUBSTRING"@.len() == 9); assert("SPLIT"@.len() == 5); },
        (RuntimeOperationType::Substring, RuntimeOperationType::Substring) => {},
        (RuntimeOperationType::Substring, RuntimeOperationType::RegexCapture) => { assert("SUBSTRING"@.len() == 9); assert("REGEX_CAPTURE"@.len() == 13); },
        (RuntimeOperationType::Substring, RuntimeOperationType::Arithmetic) => { assert("SUBSTRING"@.len() == 9); assert("ARITHMETIC"@.len() == 10); },
        (RuntimeOperationType::Substring, RuntimeOperationType::Count) => { assert("SUBSTRING"@.len() == 9); assert("COUNT"@.len() == 5); },
        (RuntimeOperationType::Substring, RuntimeOperationType::Unique) => { assert("SUBSTRING"@.len() == 9); assert("UNIQUE"@.len() == 6); },
        (RuntimeOperationType::Substring, RuntimeOperationType::End) => { assert("SUBSTRING"@.len() == 9); assert("END"@.len() == 3); },
        (RuntimeOperationType::Substring, RuntimeOperationType::Merge) => { assert("SUBSTRING"@.len() == 9); assert("MERGE"@.len() == 5); },
        (RuntimeOperationType::Substring, RuntimeOperationType::Extract) => { assert("SUBSTRING"@.len() == 9); assert("EXTRACT"@.len() == 7); },
        (RuntimeOperationType::RegexCapture, RuntimeOperationType::Concat) => { assert("REGEX_CAPTURE"@.len() == 13); assert("CONCAT"@.len() == 6); },
        (RuntimeOperationType::RegexCapture, RuntimeOperationType::Split) => { assert("REGEX_CAPTURE"@.len() == 13); assert("SPLIT"@.len() == 5); },
        (RuntimeOperationType::RegexCapture, RuntimeOperationType::Substring) => { assert("REGEX_CAPTURE"@.len() == 13); assert("SUBSTRING"@.len() == 9); },
        (RuntimeOperationType::RegexCapture, RuntimeOperationType::RegexCapture) => {},
        (RuntimeOperationType::RegexCapture, RuntimeOperationType::Arithmetic) => { assert("REGEX_CAPTURE"@.len() == 13); assert("ARITHMETIC"@.len() == 10); },
        (RuntimeOperationType::RegexCapture, RuntimeOperationType::Count) => { assert("REGEX_CAPTURE"@.len() == 13); assert("COUNT"@.len() == 5); },
        (RuntimeOperationType::RegexCapture, RuntimeOperationType::Unique) => { assert("REGEX_CAPTURE"@.len() == 13); assert("UNIQUE"@.len() == 6); },
        (RuntimeOperationType::RegexCapture, RuntimeOperationType::End) => { assert("REGEX_CAPTURE"@.len() == 13); assert("END"@.len() == 3); },
        (RuntimeOperationType::RegexCapture, RuntimeOperationType::Merge) => { assert("REGEX_CAPTURE"@.len() == 13); assert("MERGE"@.len() == 5); },
        (RuntimeOperationType::RegexCapture, RuntimeOperationType::Extract) => { assert("REGEX_CAPTURE"@.len() == 13); assert("EXTRACT"@.len() == 7); },
        (RuntimeOperationType::Arithmetic, RuntimeOperationType::Concat) => { assert("ARITHMETIC"@.len() == 10); assert("CONCAT"@.len() == 6); },
        (RuntimeOperationType::Arithmetic, RuntimeOperationType::Split) => { assert("ARITHMETIC"@.len() == 10); assert("SPLIT"@.len() == 5); },
        (RuntimeOperationType::Arithmetic, RuntimeOperationType::Substring) => { assert("ARITHMETIC"@.len() == 10); assert("SUBSTRING"@.len() == 9); },
        (RuntimeOperationType::Arithmetic, RuntimeOperationType::RegexCapture) => { assert("ARITHMETIC"@.len() == 10); assert("REGEX_CAPTURE"@.len() == 13); },
        (RuntimeOperationType::Arithmetic, RuntimeOperationType::Arithmetic) => {},
        (RuntimeOperationType::Arithmetic, RuntimeOperationType::Count) => { assert("ARITHMETIC"@.len() == 10); assert("COUNT"@.len() == 5); },
        (RuntimeOperationType::Arithmetic, RuntimeOperationType::Unique) => { assert("ARITHMETIC"@.len() == 10); assert("UNIQUE"@.len() == 6); },
        (RuntimeOperationType::Arithmetic, RuntimeOperationType::End) => { assert("ARITHMETIC"@.len() == 10); assert("END"@.len() == 3); },
        (RuntimeOperationType::Arithmetic, RuntimeOperationType::Merge) => { assert("ARITHMETIC"@.len() == 10); assert("MERGE"@.len() == 5); },
        (RuntimeOperationType::Arithmetic, RuntimeOperationType::Extract) => { assert("ARITHMETIC"@.len() == 10); assert("EXTRACT"@.len() == 7); },
        (RuntimeOperationType::Count, RuntimeOperationType::Concat) => { assert("COUNT"@.len() == 5); assert("CONCAT"@.len() == 6); },
        (RuntimeOperationType::Count, RuntimeOperationType::Split) => { assert("COUNT"@[0] == 'C'); assert("SPLIT"@[0] == 'S'); assert(sa[0] == sb[0]); },
        (RuntimeOperationType::Count, RuntimeOperationType::Substring) => { assert("COUNT"@.len() == 5); assert("SUBSTRING"@.len() == 9); },
        (RuntimeOperationType::Count, RuntimeOperationType::RegexCapture) => { assert("COUNT"@.len() == 5); assert("REGEX_CAPTURE"@.len() == 13); },
        (RuntimeOperationType::Count, RuntimeOperationType::Arithmetic) => { assert("COUNT"@.len() == 5); assert("ARITHMETIC"@.len() == 10); },
        (RuntimeOperationType::Count, RuntimeOperationType::Count) => {},
        (RuntimeOperationType::Count, RuntimeOperationType::Unique) => { assert("COUNT"@.len() == 5); assert("UNIQUE"@.len() == 6); },
        (RuntimeOperationType::Count, RuntimeOperationType::End) => { assert("COUNT"@.len() == 5); assert("END"@.len() == 3); },
        (RuntimeOperationType::Count, RuntimeOperationType::Merge) => { assert("COUNT"@[0] == 'C'); assert("MERGE"@[0] == 'M'); assert(sa[0] == sb[0]); },
        (RuntimeOperationType::Count, RuntimeOperationType::Extract) => { assert("COUNT"@.len() == 5); assert("EXTRACT"@.len() == 7); },
        (RuntimeOperationType::Unique, RuntimeOperationType::Concat) => { assert("UNIQUE"@[0] == 'U'); assert("CONCAT"@[0] == 'C'); assert(sa[0] == sb[0]); },
        (RuntimeOperationType::Unique, RuntimeOperationType::Split) => { assert("UNIQUE"@.len() == 6); assert("SPLIT"@.len() == 5); },
        (RuntimeOperationType::Unique, RuntimeOperationType::Substring) => { assert("UNIQUE"@.len() == 6); assert("SUBSTRING"@.len() == 9); },
        (RuntimeOperationType::Unique, RuntimeOperationType::RegexCapture) => { assert("UNIQUE"@.len() == 6); assert("REGEX_CAPTURE"@.len() == 13); },
        (RuntimeOperationType::Unique, RuntimeOperationType::Arithmetic) => { assert("UNIQUE"@.len() == 6); assert("ARITHMETIC"@.len() == 10); },
        (RuntimeOperationType::Unique, RuntimeOperationType::Count) => { assert("UNIQUE"@.len() == 6); assert("COUNT"@.len() == 5); },
        (RuntimeOperationType::Unique, RuntimeOperationType::Unique) => {},
        (RuntimeOperationType::Unique, RuntimeOperationType::End) => { assert("UNIQUE"@.len() == 6); assert("END"@.len() == 3); },
        (RuntimeOperationType::Unique, RuntimeOperationType::Merge) => { assert("UNIQUE"@.len() == 6); assert("MERGE"@.len() == 5); },
        (RuntimeOperationType::Unique, RuntimeOperationType::Extract) => { assert("UNIQUE"@.len() == 6); assert("EXTRACT"@.len() == 7); },
        (RuntimeOperationType::End, RuntimeOperationType::Concat) => { assert("END"@.len() == 3); assert("CONCAT"@.len() == 6); },
        (RuntimeOperationType::End, RuntimeOperationType::Split) => { assert("END"@.len() == 3); assert("SPLIT"@.len() == 5); },
        (RuntimeOperationType::End, RuntimeOperationType::Substring) => { assert("END"@.len() == 3); assert("SUBSTRING"@.len() == 9); },
        (RuntimeOperationType::End, RuntimeOperationType::RegexCapture) => { assert("END"@.len() == 3); assert("REGEX_CAPTURE"@.len() == 13); },
        (RuntimeOperationType::End, RuntimeOperationType::Arithmetic) => { assert("END"@.len() == 3); assert("ARITHMETIC"@.len() == 10); },
        (RuntimeOperationType::End, RuntimeOperationType::Count) => { assert("END"@.len() == 3); assert("COUNT"@.len() == 5); },
        (RuntimeOperationType::End, RuntimeOperationType::Unique) => { assert("END"@.len() == 3); assert("UNIQUE"@.len() == 6); },
        (RuntimeOperationType::End, RuntimeOperationType::End) => {},
        (RuntimeOperationType::End, RuntimeOperationType::Merge) => { assert("END"@.len() == 3); assert("MERGE"@.len() == 5); },
        (RuntimeOperationType::End, RuntimeOperationType::Extract) => { assert("END"@.len() == 3); assert("EXTRACT"@.len() == 7); },
        (RuntimeOperationType::Merge, RuntimeOperationType::Concat) => { assert("MERGE"@.len() == 5); assert("CONCAT"@.len() == 6); },
        (RuntimeOperationType::Merge, RuntimeOperationType::Split) => { assert("MERGE"@[0] == 'M'); assert("SPLIT"@[0] == 'S'); assert(sa[0] == sb[0]); },
        (RuntimeOperationType::Merge, RuntimeOperationType::Substring) => { assert("MERGE"@.len() == 5); assert("SUBSTRING"@.len() == 9); },
        (RuntimeOperationType::Merge, RuntimeOperationType::RegexCapture) => { assert("MERGE"@.len() == 5); assert("REGEX_CAPTURE"@.len() == 13); },
        (RuntimeOperationType::Merge, RuntimeOperationType::Arithmetic) => { assert("MERGE"@.len() == 5); assert("ARITHMETIC"@.len() == 10); },
        (RuntimeOperationType::Merge, RuntimeOperationType::Count) => { assert("MERGE"@[0] == 'M'); assert("COUNT"@[0] == 'C'); assert(sa[0] == sb[0]); },
        (RuntimeOperationType::Merge, RuntimeOperationType::Unique) => { assert("MERGE"@.len() == 5); assert("UNIQUE"@.len() == 6); },
        (RuntimeOperationType::Merge, RuntimeOperationType::End) => { assert("MERGE"@.len() == 5); assert("END"@.len() == 3); },
        (RuntimeOperationType::Merge, RuntimeOperationType::Merge) => {},
        (RuntimeOperationType::Merge, RuntimeOperationType::Extract) => { assert("MERGE"@.len() == 5); assert("EXTRACT"@.len() == 7); },
        (RuntimeOperationType::Extract, RuntimeOperationType::Concat) => { assert("EXTRACT"@.len() == 7); assert("CONCAT"@.len() == 6); },
        (RuntimeOperationType::Extract, RuntimeOperationType::Split) => { assert("EXTRACT"@.len() == 7); assert("SPLIT"@.len() == 5); },
        (RuntimeOperationType::Extract, RuntimeOperationType::Substring) => { assert("EXTRACT"@.len() == 7); assert("SUBSTRING"@.len() == 9); },
        (RuntimeOperationType::Extract, RuntimeOperationType::RegexCapture) => { assert("EXTRACT"@.len() == 7); assert("REGEX_CAPTURE"@.len() == 13); },
        (RuntimeOperationType::Extract, RuntimeOperationType::Arithmetic) => { assert("EXTRACT"@.len() == 7); assert("ARITHMETIC"@.len() == 10); },
        (RuntimeOperationType::Extract, RuntimeOperationType::Count) => { assert("EXTRACT"@.len() == 7); assert("COUNT"@.len() == 5); },
        (RuntimeOperationType::Extract, RuntimeOperationType::Unique) => { assert("EXTRACT"@.len() == 7); assert("UNIQUE"@.len() == 6); },
        (RuntimeOperationType::Extract, RuntimeOperationType::End) => { assert("EXTRACT"@.len() == 7); assert("END"@.len() == 3); },
        (RuntimeOperationType::Extract, RuntimeOperationType::Merge) => { assert("EXTRACT"@.len() == 7); assert("MERGE"@.len() == 5); },
        (RuntimeOperationType::Extract, RuntimeOperationType::Extract) => {},
    }
}

/// The RUN operation declarations of the definition of an AST.
pub open spec fn ast_runs(ast: JsonValue) -> Seq<JsonValue> {
    match json_get(ast, "definition"@) {
        Some(d) => match json_get(d, "runtime_operations"@) {
            Some(JsonValue::Array(a)) => a@,
            _ => Seq::empty(),
        },
        None => Seq::empty(),
    }
}

/// The positions of the RUN operation declarations of a list that parse.
pub open spec fn good_runs(items: Seq<JsonValue>) -> Seq<int>
    decreases items.len(),
{
    if items.len() == 0 {
        Seq::empty()
    } else {
        good_runs(items.drop_last()) + if run_error(items.last()) is None { seq![items.len() - 1] } else { Seq::empty() }
    }
}

/// The validations a list of RUN operation declarations defers, in order.
pub open spec fn runs_deferrals(items: Seq<JsonValue>) -> Seq<RunDeferral>
    decreases items.len(),
{
    if items.len() == 0 {
        Seq::empty()
    } else {
        runs_deferrals(items.drop_last()) + run_deferrals(items.last())
    }
}

/// The positions kept lie in the list.
proof fn lemma_good_runs_bounded(items: Seq<JsonValue>)
    ensures
        forall|k: int| 0 <= k < good_runs(items).len() ==> 0 <= #[trigger] good_runs(items)[k] < items.len(),
    decreases items.len(),
{
    if items.len() > 0 {
        let pre = items.drop_last();
        lemma_good_runs_bounded(pre);
        let all = good_runs(items);
        assert forall|k: int| 0 <= k < all.len() implies 0 <= #[trigger] all[k] < items.len() by {
            if k < good_runs(pre).len() {
                assert(all[k] == good_runs(pre)[k]);
            }
        }
    }
}

/// Parse the RUN operations of the definition of an AST. A declaration that
/// does not parse is recorded as a parsing error and skipped.
pub fn extract_runtime_operations_from_json_with_context(ast_json: &JsonValue)
    -> (res: Result<RuntimeOperationParsingResult, ResolutionError>)
    ensures
        match res {
            Ok(r) => {
                let items = ast_runs(*ast_json);
                let pos = good_runs(items);
                &&& json_get(*ast_json, "definition"@) is Some
                &&& r.runtime_operations@.len() == pos.len()
                &&& forall|k: int| 0 <= k < pos.len() ==> run_parsed(items[pos[k]], #[trigger] r.runtime_operations@[k])
                &&& deferrals(r.context.deferred_validations@) == runs_deferrals(items)
            },
            Err(e) => e matches ResolutionError::InvalidInput { message } && json_get(*ast_json, "definition"@) is None
                && message@ == "No definition found in AST"@,
        },
{
    let mut parsing_context = RuntimeOperationParsingContext::new();
    let definition = match ast_json.get("definition") {
        Some(d) => d,
        None => {
            return Err(ResolutionError::InvalidInput { message: to_owned_string("No definition found in AST") });
        },
    };
    let empty: Vec<JsonValue> = Vec::new();
    let items: &Vec<JsonValue> = match definition.get("runtime_operations") {
        Some(v) => match v.as_array() {
            Some(a) => a,
            None => &empty,
        },
        None => &empty,
    };
    let mut ops: Vec<RuntimeOperation> = Vec::new();
    let mut i: usize = 0;
    proof {
        assert(items@.subrange(0, 0) =~= Seq::<JsonValue>::empty());
        assert(deferrals(parsing_context.deferred_validations@) =~= Seq::<RunDeferral>::empty());
    }
    while i < items.len()
        invariant
            i <= items@.len(),
            items@ == ast_runs(*ast_json),
            ops@.len() == good_runs(items@.subrange(0, i as int)).len(),
            forall|k: int| 0 <= k < ops@.len() ==> run_parsed(
                items@[good_runs(items@.subrange(0, i as int))[k]], #[trigger] ops@[k]),
            deferrals(parsing_context.deferred_validations@) == runs_deferrals(items@.subrange(0, i as int)),
        decreases items@.len() - i,
    {
        let ghost sub = items@.subrange(0, i + 1);
        let ghost pre = good_runs(items@.subrange(0, i as int));
        proof {
            assert(sub.drop_last() =~= items@.subrange(0, i as int));
            assert(sub.last() == items@[i as int]);
            lemma_good_runs_bounded(items@.subrange(0, i as int));
        }
        match parse_runtime_operation_from_json_with_context(&items[i], &mut parsing_context) {
            Ok(op) => {
                ops.push(op);
                proof {
                    assert(good_runs(sub) == pre.push(i as int));
                    assert forall|k: int| 0 <= k < ops@.len() implies run_parsed(items@[good_runs(sub)[k]], #[trigger] ops@[k]) by {
                        if k < pre.len() {
                            assert(good_runs(sub)[k] == pre[k]);
                        }
                    }
                }
            },
            Err(e) => {
                let msg = match &e {
                    ResolutionError::InvalidInput { message } => message.as_str(),
                    _ => "",
                };
                let n = usize_to_string(i);
                let dbg = debug_invalid_input(msg);
                parsing_context.add_parsing_error(concat4("Failed to parse runtime operation at index ", n.as_str(), ": ",
                    dbg.as_str()));
                proof {
                    assert(good_runs(sub) =~= pre);
                }
            },
        }
        i = i + 1;
    }
    proof {
        assert(items@.subrange(0, items@.len() as int) =~= items@);
    }
    Ok(RuntimeOperationParsingResult::new(ops, parsing_context))
}

/// Parse the RUN operations of the definition of an AST, keeping only the operations.
pub fn extract_runtime_operations_from_json(ast_json: &JsonValue) -> (res: Result<Vec<RuntimeOperation>, ResolutionError>)
    ensures
        match res {
            Ok(ops) => {
                let items = ast_runs(*ast_json);
                let pos = good_runs(items);
                &&& json_get(*ast_json, "definition"@) is Some
                &&& ops@.len() == pos.len()
                &&& forall|k: int| 0 <= k < pos.len() ==> run_parsed(items[pos[k]], #[trigger] ops@[k])
            },
            Err(e) => e matches ResolutionError::InvalidInput { message } && json_get(*ast_json, "definition"@) is None
                && message@ == "No definition found in AST"@,
        },
{
    match extract_runtime_operations_from_json_with_context(ast_json) {
        Ok(r) => Ok(r.runtime_operations),
        Err(e) => Err(e),
    }
}

} // verus!
