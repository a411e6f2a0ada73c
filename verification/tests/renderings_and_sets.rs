use esp_scanner_base::json::{debug_json, JsonNumber, JsonValue};
use esp_scanner_base::resolution::error::{debug_invalid_input, debug_resolution_error, FieldResolutionError, ResolutionError};
use esp_scanner_base::resolution::set_expansion::expand_set_ref_in_declaration_helper;
use esp_scanner_base::resolution::set_operations::{execute_set_operation, resolve_set_operations};
use esp_scanner_base::resolution::dag::{DependencyGraph, SymbolType};
use esp_scanner_base::strings::debug_str;
use esp_scanner_base::types::criterion::CriterionDeclaration;
use esp_scanner_base::types::object::{ObjectDeclaration, ObjectElement, ResolvedObject};
use esp_scanner_base::types::resolution_context::ResolutionContext;
use esp_scanner_base::types::set::{ResolvedSetOperand, ResolvedSetOperation, SetOperand, SetOperation, SetOperationType};
use esp_scanner_base::types::test::{ExistenceCheck, ItemCheck, TestSpecification};

fn int_number(i: i64) -> JsonValue {
    JsonValue::Number(JsonNumber { int: Some(i), uint: if i >= 0 { Some(i as u64) } else { None }, float_bits: (i as f64).to_bits(), float_text: String::new() })
}

#[test]
fn json_rendering_matches_reader_debug() {
    assert_eq!(debug_json(&JsonValue::Null), "Null");
    assert_eq!(debug_json(&JsonValue::Bool(true)), "Bool(true)");
    assert_eq!(debug_json(&int_number(1)), "Number(1)");
    assert_eq!(debug_json(&int_number(-7)), "Number(-7)");
    let half = JsonValue::Number(JsonNumber { int: None, uint: None, float_bits: 0.5f64.to_bits(), float_text: "0.5".to_string() });
    assert_eq!(debug_json(&half), "Number(0.5)");
    assert_eq!(debug_json(&JsonValue::String("a\"b\n".to_string())), "String(\"a\\\"b\\n\")");
    let arr = JsonValue::Array(vec![int_number(1), JsonValue::String("x".to_string())]);
    assert_eq!(debug_json(&arr), "Array [Number(1), String(\"x\")]");
    assert_eq!(debug_json(&JsonValue::Array(vec![])), "Array []");
    let obj = JsonValue::Object(vec![("k".to_string(), int_number(1)), ("z".to_string(), JsonValue::Null)]);
    assert_eq!(debug_json(&obj), "Object {\"k\": Number(1), \"z\": Null}");
    assert_eq!(debug_json(&JsonValue::Object(vec![])), "Object {}");
}

#[test]
fn string_rendering_escapes() {
    assert_eq!(debug_str("plain"), "\"plain\"");
    assert_eq!(debug_str("tab\there"), "\"tab\\there\"");
    assert_eq!(debug_str("back\\slash"), "\"back\\\\slash\"");
    assert_eq!(debug_str("esc\u{1b}"), "\"esc\\u{1b}\"");
    assert_eq!(debug_str("it's"), format!("{:?}", "it's"));
    assert_eq!(debug_str("é"), format!("{:?}", "é"));
}

#[test]
fn error_rendering_matches_derived_debug() {
    assert_eq!(debug_invalid_input("bad \"x\""), "InvalidInput { message: \"bad \\\"x\\\"\" }");
    let e = ResolutionError::UndefinedSet { name: "s".to_string(), context: "ctx".to_string() };
    assert_eq!(debug_resolution_error(&e), "UndefinedSet { name: \"s\", context: \"ctx\" }");
    let c = ResolutionError::CircularDependency { cycle: vec!["a".to_string(), "b".to_string(), "a".to_string()] };
    assert_eq!(debug_resolution_error(&c), "CircularDependency { cycle: [\"a\", \"b\", \"a\"] }");
    let l = ResolutionError::LocalSymbolConflict { symbol: "x".to_string(), ctn_id: 3 };
    assert_eq!(debug_resolution_error(&l), "LocalSymbolConflict { symbol: \"x\", ctn_id: 3 }");
    let f = ResolutionError::FieldResolution(FieldResolutionError::VariableReferenceNotAllowed {
        variable_name: "v".to_string(), context: "c".to_string() });
    assert_eq!(debug_resolution_error(&f), "FieldResolution(VariableReferenceNotAllowed { variable_name: \"v\", context: \"c\" })");
    assert_eq!(debug_resolution_error(&ResolutionError::ContextError("m".to_string())), "ContextError(\"m\")");
}

fn resolved(id: &str) -> ResolvedObject {
    ResolvedObject { identifier: id.to_string(), resolved_elements: vec![], is_global: true }
}

#[test]
fn executed_set_is_stored_in_context() {
    let mut context = ResolutionContext::new();
    context.resolved_global_objects.insert("o1".to_string(), resolved("o1"));
    context.resolved_global_objects.insert("o2".to_string(), resolved("o2"));
    let op = SetOperation {
        set_id: "s".to_string(),
        operation: SetOperationType::Union,
        operands: vec![SetOperand::ObjectRef("o1".to_string()), SetOperand::ObjectRef("o2".to_string())],
        filter: None,
    };
    let r = execute_set_operation(&op, &mut context).unwrap();
    assert_eq!(r.set_id, "s");
    let stored = context.resolved_sets.get("s").unwrap();
    assert_eq!(stored.resolved_operands.len(), 2);
    assert_eq!(context.resolved_sets.entries.len(), 1);
}

#[test]
fn failed_set_keeps_earlier_sets() {
    let mut context = ResolutionContext::new();
    context.resolved_global_objects.insert("o1".to_string(), resolved("o1"));
    context.set_operations = vec![
        SetOperation { set_id: "a".to_string(), operation: SetOperationType::Union,
            operands: vec![SetOperand::ObjectRef("o1".to_string())], filter: None },
        SetOperation { set_id: "b".to_string(), operation: SetOperationType::Union,
            operands: vec![SetOperand::ObjectRef("missing".to_string())], filter: None },
    ];
    let e = resolve_set_operations(&mut context).unwrap_err();
    assert!(matches!(e, ResolutionError::UndefinedGlobalObject { .. }));
    assert!(context.resolved_sets.get("a").is_some());
    assert!(context.resolved_sets.get("b").is_none());
    assert_eq!(context.set_operations.len(), 2);
}

fn criterion_with_local(set_id: &str) -> CriterionDeclaration {
    CriterionDeclaration {
        criterion_type: "ctn".to_string(),
        test: TestSpecification::simple(ExistenceCheck::All, ItemCheck::All),
        state_refs: vec![],
        object_refs: vec![],
        local_states: vec![],
        local_object: Some(ObjectDeclaration {
            identifier: "local".to_string(),
            elements: vec![ObjectElement::SetRef { set_id: set_id.to_string() }],
            is_global: false,
        }),
        ctn_node_id: Some(1),
    }
}

fn refs(set: ResolvedSetOperation, extra: Vec<ResolvedSetOperation>) -> Vec<String> {
    let mut context = ResolutionContext::new();
    for id in ["o1", "o2", "o3"] {
        context.resolved_global_objects.insert(id.to_string(), resolved(id));
    }
    let id = set.set_id.clone();
    context.resolved_sets.insert(id.clone(), set);
    for s in extra {
        context.resolved_sets.insert(s.set_id.clone(), s);
    }
    let mut d = criterion_with_local(&id);
    assert!(expand_set_ref_in_declaration_helper(&mut d, &context.resolved_sets, &context.resolved_global_objects).unwrap());
    d.object_refs.iter().map(|r| r.object_id.clone()).collect()
}

fn set(id: &str, op: SetOperationType, operands: Vec<ResolvedSetOperand>) -> ResolvedSetOperation {
    ResolvedSetOperation { set_id: id.to_string(), operation: op, resolved_operands: operands, resolved_filter: None }
}

fn oref(id: &str) -> ResolvedSetOperand {
    ResolvedSetOperand::ObjectRef(id.to_string())
}

#[test]
fn expansion_applies_intersection() {
    let inner = set("inner", SetOperationType::Union, vec![oref("o1"), oref("o2")]);
    let outer = set("outer", SetOperationType::Intersection,
        vec![ResolvedSetOperand::SetRef("inner".to_string()), oref("o2")]);
    assert_eq!(refs(outer, vec![inner]), vec!["o2".to_string()]);
}

#[test]
fn expansion_applies_complement() {
    let inner = set("inner", SetOperationType::Union, vec![oref("o1"), oref("o3")]);
    let outer = set("outer", SetOperationType::Complement,
        vec![ResolvedSetOperand::SetRef("inner".to_string()), oref("o3")]);
    assert_eq!(refs(outer, vec![inner]), vec!["o1".to_string()]);
}

#[test]
fn expansion_union_keeps_each_once() {
    let outer = set("outer", SetOperationType::Union, vec![oref("o1"), oref("o2"), oref("o1")]);
    assert_eq!(refs(outer, vec![]), vec!["o1".to_string(), "o2".to_string()]);
}

#[test]
fn cycle_is_simple_and_sort_reports_it() {
    let mut g = DependencyGraph::new();
    for id in ["A", "B", "C"] {
        g.add_node(id.to_string(), SymbolType::Variable).unwrap();
    }
    g.add_dependency("A", "B").unwrap();
    g.add_dependency("B", "C").unwrap();
    g.add_dependency("C", "A").unwrap();
    let c = g.detect_cycle().unwrap();
    assert_eq!(c.len(), 4);
    assert_eq!(c[0], c[3]);
    match g.topological_sort() {
        Err(ResolutionError::CircularDependency { cycle }) => assert_eq!(cycle, c),
        _ => panic!("expected a circular dependency"),
    }
    assert_eq!(g.nodes.get("A").unwrap().dependencies, vec!["B".to_string()]);
    assert_eq!(g.nodes.get("A").unwrap().dependents, vec!["C".to_string()]);
}

use esp_scanner_base::execution::{CtnResult, ExecutionResult, FieldValidationResult, StateValidationResult};
use esp_scanner_base::results::generator::ResultGenerator;
use esp_scanner_base::results::types::FindingSeverity;
use esp_scanner_base::strategies::ComplianceStatus;

fn ctn(status: ComplianceStatus, states: Vec<StateValidationResult>) -> CtnResult {
    CtnResult {
        criterion_type: "file_check".to_string(),
        status,
        execution_time_ms: 5,
        execution_result: ExecutionResult { message: "checked".to_string(), state_results: states },
    }
}

fn field(name: &str, passed: bool, expected: &str, actual: &str) -> FieldValidationResult {
    FieldValidationResult { field_name: name.to_string(), passed, expected_value: expected.to_string(), actual_value: actual.to_string() }
}

#[test]
fn findings_for_failed_results() {
    let failing = ctn(ComplianceStatus::Fail, vec![StateValidationResult {
        object_id: "obj".to_string(),
        state_results: vec![field("mode", false, "String(\"0644\")", "String(\"0777\")"), field("owner", true, "a", "a")],
        combined_result: false,
    }]);
    let passing = ctn(ComplianceStatus::Pass, vec![]);
    let erroring = ctn(ComplianceStatus::Error, vec![]);
    let findings = ResultGenerator::generate_findings(&vec![failing, passing, erroring]).unwrap();
    assert_eq!(findings.len(), 2);
    let f = &findings[0];
    assert_eq!(f.finding_id.len(), 36);
    assert_eq!(f.severity, FindingSeverity::High);
    assert_eq!(f.title, "file_check validation failed");
    assert_eq!(f.description, "checked");
    assert_eq!(debug_json(&f.expected), "Object {\"mode\": String(\"String(\\\"0644\\\")\")}");
    assert_eq!(debug_json(&f.actual), "Object {\"mode\": String(\"String(\\\"0777\\\")\")}");
    assert_eq!(f.field_path.as_deref(), Some("obj.mode"));
    assert_eq!(f.remediation.as_deref(), Some("Review and correct the configuration values for file_check to match the expected state. Refer to the control framework documentation for detailed remediation steps."));
    let g = &findings[1];
    assert_eq!(g.severity, FindingSeverity::Critical);
    assert_eq!(debug_json(&g.expected), "Object {\"status\": String(\"compliant\")}");
    assert_eq!(debug_json(&g.actual), "Object {\"status\": String(\"Error\")}");
    assert_eq!(g.field_path, None);
    assert_eq!(g.remediation.as_deref(), Some("An error occurred during validation. Check system permissions and resource availability."));
}

#[test]
fn trim_drops_unicode_white_space_at_both_ends() {
    assert_eq!(esp_scanner_base::strings::trim_str("  ab c \t\n"), "ab c");
    assert_eq!(esp_scanner_base::strings::trim_str("\u{3000}x\u{a0}"), "x");
    assert_eq!(esp_scanner_base::strings::trim_str(" \u{2009} "), "");
    assert_eq!(esp_scanner_base::strings::trim_str("a\u{200b}"), "a\u{200b}");
    assert!(esp_scanner_base::strings::is_white_space_char('\u{85}'));
    assert!(!esp_scanner_base::strings::is_white_space_char('x'));
}
