use esp_scanner_base::json::{JsonNumber, JsonValue};
use esp_scanner_base::parser::criterion::extract_criteria_from_json;
use esp_scanner_base::parser::pipeline::PipelineOutput;
use esp_scanner_base::resolution::engine::ResolutionEngine;
use esp_scanner_base::resolution::error::ResolutionError;
use esp_scanner_base::types::common::{LogicalOp, ResolvedValue};
use esp_scanner_base::types::criteria::CriteriaTree;
use esp_scanner_base::types::resolution_context::{ResolutionContext, ValidationType};
use esp_scanner_base::types::test::{ExistenceCheck, ItemCheck, StateJoinOp};

fn s(v: &str) -> JsonValue {
    JsonValue::String(v.to_string())
}

fn num(i: i64) -> JsonValue {
    JsonValue::Number(JsonNumber { int: Some(i), uint: if i >= 0 { Some(i as u64) } else { None }, float_bits: (i as f64).to_bits(), float_text: String::new() })
}

fn obj(members: Vec<(&str, JsonValue)>) -> JsonValue {
    JsonValue::Object(members.into_iter().map(|(k, v)| (k.to_string(), v)).collect())
}

fn arr(items: Vec<JsonValue>) -> JsonValue {
    JsonValue::Array(items)
}

fn message(e: ResolutionError) -> String {
    match e {
        ResolutionError::InvalidInput { message } => message,
        other => panic!("unexpected error {:?}", other),
    }
}

fn test_line() -> JsonValue {
    obj(vec![("existence_check", s("any")), ("item_check", s("all"))])
}

fn ctn(kind: &str, state: &str) -> JsonValue {
    obj(vec![(
        "Criterion",
        obj(vec![
            ("criterion_type", s(kind)),
            ("test", test_line()),
            ("state_refs", arr(vec![obj(vec![("state_id", s(state))])])),
        ]),
    )])
}

fn ast_with_criteria(blocks: Vec<JsonValue>) -> JsonValue {
    obj(vec![("definition", obj(vec![("criteria", arr(blocks))]))])
}

#[test]
fn single_criterion_block_reads_as_the_criterion() {
    let ast = ast_with_criteria(vec![obj(vec![("content", arr(vec![ctn("file_check", "s1")]))])]);
    let mut context = ResolutionContext::new();
    let root = extract_criteria_from_json(&ast, &mut context).unwrap();
    assert_eq!(root.trees.len(), 1);
    assert_eq!(root.root_logical_op, LogicalOp::And);
    match &root.trees[0] {
        CriteriaTree::Criterion { declaration, node_id } => {
            assert_eq!(declaration.criterion_type, "file_check");
            assert_eq!(declaration.ctn_node_id, Some(0));
            assert_eq!(*node_id, 1);
            assert_eq!(declaration.test.existence_check, ExistenceCheck::Any);
            assert_eq!(declaration.test.item_check, ItemCheck::All);
            assert_eq!(declaration.state_refs[0].state_id, "s1");
        },
        other => panic!("expected a criterion, got {:?}", other),
    }
    assert_eq!(context.deferred_validations.len(), 1);
    assert_eq!(context.deferred_validations[0].validation_type, ValidationType::StateReference);
    assert_eq!(context.deferred_validations[0].source_symbol, "CTN:file_check");
    assert_eq!(context.deferred_validations[0].target_symbol, "s1");
    assert_eq!(context.deferred_validations[0].context, "CTN 'file_check' references global state 's1'");
}

#[test]
fn nested_blocks_number_criteria_in_reading_order() {
    let inner = obj(vec![("logical_op", s("OR")), ("negate", JsonValue::Bool(true)),
        ("content", arr(vec![ctn("b", "s2"), ctn("c", "s3")]))]);
    let outer = obj(vec![("content", arr(vec![ctn("a", "s1"), obj(vec![("Criteria", inner)])]))]);
    let ast = ast_with_criteria(vec![outer]);
    let mut context = ResolutionContext::new();
    let root = extract_criteria_from_json(&ast, &mut context).unwrap();
    assert_eq!(root.total_criteria_count(), 3);
    match &root.trees[0] {
        CriteriaTree::Block { logical_op, negate, children } => {
            assert_eq!(*logical_op, LogicalOp::And);
            assert!(!negate);
            assert_eq!(children.len(), 2);
            match &children[1] {
                CriteriaTree::Block { logical_op, negate, children } => {
                    assert_eq!(*logical_op, LogicalOp::Or);
                    assert!(*negate);
                    match &children[1] {
                        CriteriaTree::Criterion { declaration, node_id } => {
                            assert_eq!(declaration.ctn_node_id, Some(2));
                            assert_eq!(*node_id, 3);
                        },
                        other => panic!("unexpected {:?}", other),
                    }
                },
                other => panic!("unexpected {:?}", other),
            }
        },
        other => panic!("unexpected {:?}", other),
    }
}

#[test]
fn criteria_errors_name_their_cause() {
    let mut context = ResolutionContext::new();
    let e = extract_criteria_from_json(&obj(vec![]), &mut context).unwrap_err();
    assert_eq!(message(e), "No definition found in AST");

    let bad_op = ast_with_criteria(vec![obj(vec![("logical_op", s("XOR")), ("content", arr(vec![]))])]);
    let e = extract_criteria_from_json(&bad_op, &mut context).unwrap_err();
    assert_eq!(message(e), "Invalid logical operator: XOR");
    assert_eq!(
        context.parsing_errors.last().unwrap(),
        "Failed to build criteria tree at index 0: InvalidInput { message: \"Invalid logical operator: XOR\" }"
    );

    let unknown = ast_with_criteria(vec![obj(vec![("content", arr(vec![obj(vec![("Other", num(1))])]))])]);
    let e = extract_criteria_from_json(&unknown, &mut context).unwrap_err();
    assert_eq!(message(e), "Unknown criteria content type at index 0");

    let no_content = ast_with_criteria(vec![obj(vec![])]);
    let e = extract_criteria_from_json(&no_content, &mut context).unwrap_err();
    assert_eq!(message(e), "Criteria missing content");
}

#[test]
fn criteria_nested_too_deep_are_refused() {
    let mut block = obj(vec![("content", arr(vec![ctn("deep", "s")]))]);
    for _ in 0..11 {
        block = obj(vec![("content", arr(vec![obj(vec![("Criteria", block)])]))]);
    }
    let ast = ast_with_criteria(vec![block]);
    let mut context = ResolutionContext::new();
    let e = extract_criteria_from_json(&ast, &mut context).unwrap_err();
    assert_eq!(message(e), "Criteria nesting too deep: 11 > 10");
}

#[test]
fn criterion_errors_follow_the_reading_order() {
    let mut context = ResolutionContext::new();
    let no_type = ast_with_criteria(vec![obj(vec![("content", arr(vec![obj(vec![("Criterion", obj(vec![]))])]))])]);
    assert_eq!(message(extract_criteria_from_json(&no_type, &mut context).unwrap_err()), "Criterion missing criterion_type");

    let bad_type = obj(vec![("criterion_type", s("9x")), ("test", test_line())]);
    let ast = ast_with_criteria(vec![obj(vec![("content", arr(vec![obj(vec![("Criterion", bad_type)])]))])]);
    assert_eq!(
        message(extract_criteria_from_json(&ast, &mut context).unwrap_err()),
        "Invalid criterion type identifier format: '9x'"
    );

    let bad_check = obj(vec![("criterion_type", s("k")), ("test", obj(vec![("existence_check", s("maybe")), ("item_check", s("all"))]))]);
    let ast = ast_with_criteria(vec![obj(vec![("content", arr(vec![obj(vec![("Criterion", bad_check)])]))])]);
    assert_eq!(message(extract_criteria_from_json(&ast, &mut context).unwrap_err()), "Invalid existence check: maybe");

    let empty = obj(vec![("criterion_type", s("k")), ("test", test_line())]);
    let ast = ast_with_criteria(vec![obj(vec![("content", arr(vec![obj(vec![("Criterion", empty)])]))])]);
    assert_eq!(
        message(extract_criteria_from_json(&ast, &mut context).unwrap_err()),
        "CTN 'k' must have at least one state reference, object reference, or local element"
    );

    let bad_ref = obj(vec![("criterion_type", s("k")), ("test", test_line()),
        ("state_refs", arr(vec![obj(vec![("state_id", s("bad-id"))])]))]);
    let ast = ast_with_criteria(vec![obj(vec![("content", arr(vec![obj(vec![("Criterion", bad_ref)])]))])]);
    assert_eq!(message(extract_criteria_from_json(&ast, &mut context).unwrap_err()), "Invalid state ID format: 'bad-id'");
}

#[test]
fn state_operator_is_read_from_the_test_line() {
    let test = obj(vec![("existence_check", s("all")), ("item_check", s("at_least_one")), ("state_operator", s("OR"))]);
    let c = obj(vec![("criterion_type", s("k")), ("test", test), ("object_refs", arr(vec![obj(vec![("object_id", s("o1"))])]))]);
    let ast = ast_with_criteria(vec![obj(vec![("content", arr(vec![obj(vec![("Criterion", c)])]))])]);
    let mut context = ResolutionContext::new();
    let root = extract_criteria_from_json(&ast, &mut context).unwrap();
    match &root.trees[0] {
        CriteriaTree::Criterion { declaration, .. } => {
            assert_eq!(declaration.test.state_operator, Some(StateJoinOp::Or));
            assert_eq!(declaration.object_refs[0].object_id, "o1");
        },
        other => panic!("unexpected {:?}", other),
    }
    assert_eq!(context.deferred_validations[0].validation_type, ValidationType::ObjectReference);
}

#[test]
fn local_states_keep_readable_fields_and_defer_their_variables() {
    let good = obj(vec![("name", s("owner")), ("data_type", s("String")), ("operation", s("Equals")),
        ("value", obj(vec![("Variable", s("who"))]))]);
    let bad = obj(vec![("name", s("mode")), ("data_type", s("Nope")), ("operation", s("Equals")),
        ("value", obj(vec![("String", s("x"))]))]);
    let state = obj(vec![("id", s("ls")), ("fields", arr(vec![good, bad]))]);
    let c = obj(vec![("criterion_type", s("k")), ("test", test_line()), ("local_states", arr(vec![state]))]);
    let ast = ast_with_criteria(vec![obj(vec![("content", arr(vec![obj(vec![("Criterion", c)])]))])]);
    let mut context = ResolutionContext::new();
    let root = extract_criteria_from_json(&ast, &mut context).unwrap();
    match &root.trees[0] {
        CriteriaTree::Criterion { declaration, .. } => {
            assert_eq!(declaration.local_states.len(), 1);
            assert_eq!(declaration.local_states[0].fields.len(), 1);
            assert_eq!(declaration.local_states[0].fields[0].name, "owner");
            assert!(!declaration.local_states[0].is_global);
        },
        other => panic!("unexpected {:?}", other),
    }
    assert_eq!(context.deferred_validations.len(), 2);
    assert_eq!(context.deferred_validations[0].source_symbol, "State:ls:Field:owner");
    assert_eq!(context.deferred_validations[1].source_symbol, "CTN:k:LocalState:ls");
    assert_eq!(context.deferred_validations[1].target_symbol, "who");
}

fn field(name: &str, value: JsonValue) -> JsonValue {
    obj(vec![("name", s(name)), ("value", value)])
}

fn metadata() -> JsonValue {
    obj(vec![(
        "fields",
        arr(vec![
            field("ics_scan_id", s("scan-0001")),
            field("control_framework", s("NIST")),
            field("control", s("AC-2")),
            field("platform", s("linux")),
            field("criticality", s("high")),
            field("tags", s("accounts")),
        ]),
    )])
}

fn full_ast() -> JsonValue {
    let variables = arr(vec![obj(vec![("name", s("path")), ("data_type", s("String")),
        ("initial_value", obj(vec![("String", s("/etc/passwd"))]))])]);
    let states = arr(vec![obj(vec![("id", s("exists_state")), ("fields", arr(vec![obj(vec![
        ("name", s("exists")), ("data_type", s("Boolean")), ("operation", s("Equals")),
        ("value", obj(vec![("Boolean", JsonValue::Bool(true))])),
    ])]))])]);
    let objects = arr(vec![obj(vec![("id", s("passwd_file")), ("elements", arr(vec![obj(vec![(
        "Field",
        obj(vec![("name", s("path")), ("value", obj(vec![("Variable", s("path"))]))]),
    )])]))])]);
    let criterion = obj(vec![("Criterion", obj(vec![
        ("criterion_type", s("file_check")),
        ("test", test_line()),
        ("state_refs", arr(vec![obj(vec![("state_id", s("exists_state"))])])),
        ("object_refs", arr(vec![obj(vec![("object_id", s("passwd_file"))])])),
    ]))]);
    let definition = obj(vec![
        ("variables", variables),
        ("states", states),
        ("objects", objects),
        ("criteria", arr(vec![obj(vec![("content", arr(vec![criterion]))])])),
    ]);
    obj(vec![("metadata", metadata()), ("definition", definition)])
}

fn relationships() -> JsonValue {
    obj(vec![("relationships", arr(vec![obj(vec![
        ("source", s("passwd_file")), ("target", s("path")), ("relationship_type", s("VariableUsage")),
    ])]))])
}

#[test]
fn pipeline_output_reads_every_section() {
    let output = PipelineOutput { ast_tree: full_ast(), symbols: relationships() };
    let context = ResolutionContext::from_pipeline_output(&output).unwrap();
    assert!(context.metadata.is_some());
    assert_eq!(context.variables.len(), 1);
    assert_eq!(context.global_states.len(), 1);
    assert_eq!(context.global_objects.len(), 1);
    assert_eq!(context.criteria_root.trees.len(), 1);
    assert_eq!(context.relationships.len(), 1);
    assert_eq!(context.relationships[0].source, "passwd_file");
}

#[test]
fn pipeline_output_reports_the_failing_phase() {
    let output = PipelineOutput { ast_tree: obj(vec![]), symbols: JsonValue::Null };
    let e = ResolutionContext::from_pipeline_output(&output).unwrap_err();
    assert_eq!(
        e,
        "Failed to parse metadata: InvalidInput { message: \"ICS definition missing required metadata block\" }"
    );
    let output = PipelineOutput { ast_tree: obj(vec![("metadata", metadata())]), symbols: JsonValue::Null };
    let e = ResolutionContext::from_pipeline_output(&output).unwrap_err();
    assert_eq!(e, "Failed to parse variables: InvalidInput { message: \"No definition found in AST\" }");
}

#[test]
fn engine_resolves_symbols_in_dependency_order() {
    let output = PipelineOutput { ast_tree: full_ast(), symbols: relationships() };
    let mut engine = ResolutionEngine::new();
    let context = engine.process_pipeline_output(&output).unwrap();
    let path = context.resolved_variables.get("path").unwrap();
    match &path.value {
        ResolvedValue::String(v) => assert_eq!(v, "/etc/passwd"),
        other => panic!("unexpected {:?}", other),
    }
    assert!(context.resolved_global_states.get("exists_state").is_some());
    let file = context.resolved_global_objects.get("passwd_file").unwrap();
    assert_eq!(file.resolved_elements.len(), 1);
}

#[test]
fn engine_refuses_a_null_ast() {
    let output = PipelineOutput { ast_tree: JsonValue::Null, symbols: JsonValue::Null };
    let mut engine = ResolutionEngine::new();
    let e = engine.process_pipeline_output(&output).unwrap_err();
    assert_eq!(message(e), "Pipeline output contains null AST");
}

#[test]
fn engine_refuses_an_edge_to_an_undeclared_symbol() {
    let rels = obj(vec![("relationships", arr(vec![obj(vec![
        ("source", s("passwd_file")), ("target", s("ghost")), ("relationship_type", s("VariableUsage")),
    ])]))]);
    let output = PipelineOutput { ast_tree: full_ast(), symbols: rels };
    let mut engine = ResolutionEngine::new();
    match engine.process_pipeline_output(&output).unwrap_err() {
        ResolutionError::DependencyGraphCorrupted { details } => assert_eq!(
            details,
            "Dependency symbol 'ghost' not found when adding dependency from 'passwd_file'"
        ),
        other => panic!("unexpected {:?}", other),
    }
}

#[test]
fn engine_hands_run_operations_over_to_scan_time() {
    let mut ast = full_ast();
    if let JsonValue::Object(members) = &mut ast {
        for (k, v) in members.iter_mut() {
            if k == "definition" {
                if let JsonValue::Object(d) = v {
                    d.push((
                        "runtime_operations".to_string(),
                        arr(vec![obj(vec![
                            ("target_variable", s("joined")),
                            ("operation_type", s("CONCAT")),
                            ("parameters", arr(vec![obj(vec![("Variable", s("path"))]), obj(vec![("Literal", obj(vec![("String", s(".bak"))]))])])),
                        ])]),
                    ));
                }
            }
        }
    }
    let output = PipelineOutput { ast_tree: ast, symbols: relationships() };
    let mut engine = ResolutionEngine::new();
    let context = engine.process_pipeline_output(&output).unwrap();
    assert_eq!(context.scan_time_operations.len(), 1);
    assert_eq!(context.scan_time_operations[0].target_variable, "joined");
    assert_eq!(context.scan_time_operations[0].parameters.len(), 2);
    assert!(context.scan_time_operations[0].source_object_id.is_none());
    assert!(context.resolved_variables.get("path").is_some());
}
