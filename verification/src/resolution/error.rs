//! Errors of resolution and of field resolution.

use vstd::prelude::*;
use crate::types::criterion::CtnNodeId;
use crate::strings::{debug_str, debug_quoted, concat3, join_strings, join_sep, usize_to_string, decimal};

verus! {

/// Errors raised while resolving a value against the resolved variables.
#[derive(Debug)]
pub enum FieldResolutionError {
    /// A variable reference that could not be resolved.
    VariableReferenceNotAllowed { variable_name: String, context: String },
}

/// Errors of the resolution phase.
#[derive(Debug)]
pub enum ResolutionError {
    /// Malformed input.
    InvalidInput { message: String },
    /// The dependency graph is inconsistent.
    DependencyGraphCorrupted { details: String },
    /// A dependency cycle, as a path whose first and last symbols coincide.
    CircularDependency { cycle: Vec<String> },
    /// A local symbol clashes with an existing symbol.
    LocalSymbolConflict { symbol: String, ctn_id: CtnNodeId },
    /// A SET operation could not be executed.
    SetOperationFailed { set_id: String, reason: String },
    /// A reference to an undefined global state.
    UndefinedGlobalState { name: String, context: String },
    /// A reference to an undefined global object.
    UndefinedGlobalObject { name: String, context: String },
    /// A reference to an undefined SET.
    UndefinedSet { name: String, context: String },
    /// A reference to an undefined variable.
    UndefinedVariable { name: String, context: String },
    /// A failure while building the execution context.
    ContextError(String),
    /// A field value could not be resolved.
    FieldResolution(FieldResolutionError),
}

impl From<FieldResolutionError> for ResolutionError {
    fn from(e: FieldResolutionError) -> (res: ResolutionError)
        ensures
            res == ResolutionError::FieldResolution(e),
    {
        ResolutionError::FieldResolution(e)
    }
}

impl vstd::std_specs::convert::FromSpecImpl<FieldResolutionError> for ResolutionError {
    open spec fn obeys_from_spec() -> bool {
        true
    }

    open spec fn from_spec(e: FieldResolutionError) -> ResolutionError {
        ResolutionError::FieldResolution(e)
    }
}

/// `name: "value"`, a string field as a debug rendering writes it.
pub open spec fn field_text(name: Seq<char>, value: Seq<char>) -> Seq<char> {
    name + ": "@ + debug_quoted(value)
}

/// `Variant { a: "x", b: "y" }`, a variant with two string fields as a
/// debug rendering writes it.
pub open spec fn two_fields_text(variant: Seq<char>, a: Seq<char>, x: Seq<char>, b: Seq<char>, y: Seq<char>) -> Seq<char> {
    variant + " { "@ + field_text(a, x) + ", "@ + field_text(b, y) + " }"@
}

/// The debug rendering of `InvalidInput { message }`.
pub open spec fn invalid_input_debug(message: Seq<char>) -> Seq<char> {
    "InvalidInput { "@ + field_text("message"@, message) + " }"@
}

/// The debug rendering of a resolution error: the variant's name, then its
/// fields in braces (`name: value`, separated by ", ") or its one value in
/// parentheses, strings quoted and escaped, lists in brackets.
pub open spec fn resolution_error_debug(e: ResolutionError) -> Seq<char> {
    match e {
        ResolutionError::InvalidInput { message } => invalid_input_debug(message@),
        ResolutionError::DependencyGraphCorrupted { details } =>
            "DependencyGraphCorrupted { "@ + field_text("details"@, details@) + " }"@,
        ResolutionError::CircularDependency { cycle } =>
            "CircularDependency { cycle: ["@ + join_sep(cycle@.map_values(|c: String| debug_quoted(c@)), ", "@) + "] }"@,
        ResolutionError::LocalSymbolConflict { symbol, ctn_id } =>
            "LocalSymbolConflict { "@ + field_text("symbol"@, symbol@) + ", ctn_id: "@ + decimal(ctn_id as nat) + " }"@,
        ResolutionError::SetOperationFailed { set_id, reason } =>
            two_fields_text("SetOperationFailed"@, "set_id"@, set_id@, "reason"@, reason@),
        ResolutionError::UndefinedGlobalState { name, context } =>
            two_fields_text("UndefinedGlobalState"@, "name"@, name@, "context"@, context@),
        ResolutionError::UndefinedGlobalObject { name, context } =>
            two_fields_text("UndefinedGlobalObject"@, "name"@, name@, "context"@, context@),
        ResolutionError::UndefinedSet { name, context } =>
            two_fields_text("UndefinedSet"@, "name"@, name@, "context"@, context@),
        ResolutionError::UndefinedVariable { name, context } =>
            two_fields_text("UndefinedVariable"@, "name"@, name@, "context"@, context@),
        ResolutionError::ContextError(m) => "ContextError("@ + debug_quoted(m@) + ")"@,
        ResolutionError::FieldResolution(FieldResolutionError::VariableReferenceNotAllowed { variable_name, context }) =>
            "FieldResolution("@ + two_fields_text("VariableReferenceNotAllowed"@, "variable_name"@, variable_name@,
                "context"@, context@) + ")"@,
    }
}

/// `name: "value"`.
fn field_string(name: &str, value: &str) -> (res: String)
    ensures
        res@ == field_text(name@, value@),
{
    let q = debug_str(value);
    concat3(name, ": ", q.as_str())
}

/// `Variant { a: "x", b: "y" }`.
fn two_fields_string(variant: &str, a: &str, x: &str, b: &str, y: &str) -> (res: String)
    ensures
        res@ == two_fields_text(variant@, a@, x@, b@, y@),
{
    let fa = field_string(a, x);
    let fb = field_string(b, y);
    let mut r = concat3(variant, " { ", fa.as_str());
    r.append(", ");
    r.append(fb.as_str());
    r.append(" }");
    r
}

/// The debug rendering of an invalid-input error, used in diagnostics.
pub fn debug_invalid_input(message: &str) -> (res: String)
    ensures
        res@ == invalid_input_debug(message@),
{
    let f = field_string("message", message);
    concat3("InvalidInput { ", f.as_str(), " }")
}

/// The debug rendering of a resolution error, used in diagnostics.
pub fn debug_resolution_error(e: &ResolutionError) -> (res: String)
    ensures
        res@ == resolution_error_debug(*e),
{
    match e {
        ResolutionError::InvalidInput { message } => debug_invalid_input(message.as_str()),
        ResolutionError::DependencyGraphCorrupted { details } => {
            let f = field_string("details", details.as_str());
            concat3("DependencyGraphCorrupted { ", f.as_str(), " }")
        },
        ResolutionError::CircularDependency { cycle } => {
            let mut quoted: Vec<String> = Vec::new();
            let mut i: usize = 0;
            while i < cycle.len()
                invariant
                    i <= cycle@.len(),
                    quoted@.map_values(|q: String| q@) == cycle@.subrange(0, i as int).map_values(|c: String| debug_quoted(c@)),
                decreases cycle@.len() - i,
            {
                let ghost qb = quoted@;
                quoted.push(debug_str(cycle[i].as_str()));
                proof {
                    assert(quoted@.map_values(|q: String| q@) =~= qb.map_values(|q: String| q@).push(debug_quoted(cycle@[i as int]@)));
                    assert(cycle@.subrange(0, i + 1).map_values(|c: String| debug_quoted(c@))
                        =~= cycle@.subrange(0, i as int).map_values(|c: String| debug_quoted(c@)).push(debug_quoted(cycle@[i as int]@)));
                }
                i = i + 1;
            }
            proof {
                assert(cycle@.subrange(0, cycle@.len() as int) =~= cycle@);
            }
            let joined = join_strings(&quoted, ", ");
            concat3("CircularDependency { cycle: [", joined.as_str(), "] }")
        },
        ResolutionError::LocalSymbolConflict { symbol, ctn_id } => {
            let f = field_string("symbol", symbol.as_str());
            let n = usize_to_string(*ctn_id);
            let mut r = concat3("LocalSymbolConflict { ", f.as_str(), ", ctn_id: ");
            r.append(n.as_str());
            r.append(" }");
            r
        },
        ResolutionError::SetOperationFailed { set_id, reason } =>
            two_fields_string("SetOperationFailed", "set_id", set_id.as_str(), "reason", reason.as_str()),
        ResolutionError::UndefinedGlobalState { name, context } =>
            two_fields_string("UndefinedGlobalState", "name", name.as_str(), "context", context.as_str()),
        ResolutionError::UndefinedGlobalObject { name, context } =>
            two_fields_string("UndefinedGlobalObject", "name", name.as_str(), "context", context.as_str()),
        ResolutionError::UndefinedSet { name, context } =>
            two_fields_string("UndefinedSet", "name", name.as_str(), "context", context.as_str()),
        ResolutionError::UndefinedVariable { name, context } =>
            two_fields_string("UndefinedVariable", "name", name.as_str(), "context", context.as_str()),
        ResolutionError::ContextError(m) => {
            let q = debug_str(m.as_str());
            concat3("ContextError(", q.as_str(), ")")
        },
        ResolutionError::FieldResolution(FieldResolutionError::VariableReferenceNotAllowed { variable_name, context }) => {
            let inner = two_fields_string("VariableReferenceNotAllowed", "variable_name", variable_name.as_str(),
                "context", context.as_str());
            concat3("FieldResolution(", inner.as_str(), ")")
        },
    }
}

} // verus!
