use esp_scanner_base::json::JsonValue;
use esp_scanner_base::parser::set::{collect_set_dependencies, validate_set_operation_structure, get_object_references_from_set,
    get_set_references_from_set, parse_set_operation_from_json, parse_set_operand_from_json,
    extract_set_operations_from_json, extract_set_references_from_json};
use esp_scanner_base::resolution::error::ResolutionError;
use esp_scanner_base::strings::is_valid_identifier;
use esp_scanner_base::types::resolution_context::{ResolutionContext, ValidationType};
use esp_scanner_base::types::set::{SetOperand, SetOperation, SetOperationType};

#[test]
fn mod_test_is_valid_identifier() {
    assert!(is_valid_identifier("valid_id"));
    assert!(is_valid_identifier("_underscore"));
    assert!(is_valid_identifier("mixed123"));
    assert!(!is_valid_identifier("123invalid"));
    assert!(!is_valid_identifier(""));
    assert!(!is_valid_identifier("invalid-dash"));
}

#[test]
fn test_collect_set_dependencies() {
    let mut context = ResolutionContext::new();
    let set_operation = SetOperation {
        set_id: "test_set".to_string(),
        operation: SetOperationType::Union,
        operands: vec![SetOperand::ObjectRef("obj1".to_string()), SetOperand::SetRef("set2".to_string())],
        filter: None,
    };
    collect_set_dependencies(&set_operation, &mut context);
    assert!(!context.deferred_validations.is_empty());
    let has_object_validation = context.deferred_validations.iter().any(|v| matches!(v.validation_type, ValidationType::ObjectReference));
    let has_set_validation = context.deferred_validations.iter().any(|v| matches!(v.validation_type, ValidationType::SetReference));
    assert!(has_object_validation);
    assert!(has_set_validation);
}

#[test]
fn set_dependencies_carry_sources_and_contexts() {
    let mut context = ResolutionContext::new();
    let set_operation = SetOperation {
        set_id: "s1".to_string(),
        operation: SetOperationType::Union,
        operands: vec![SetOperand::ObjectRef("o1".to_string()), SetOperand::SetRef("s2".to_string())],
        filter: None,
    };
    collect_set_dependencies(&set_operation, &mut context);
    assert_eq!(context.deferred_validations.len(), 2);
    let first = &context.deferred_validations[0];
    assert_eq!(first.source_symbol, "SET:s1");
    assert_eq!(first.target_symbol, "o1");
    assert_eq!(first.context, "Set 's1' depends on object");
    let second = &context.deferred_validations[1];
    assert_eq!(second.target_symbol, "s2");
    assert_eq!(second.context, "Set 's1' depends on set");
    assert_eq!(get_object_references_from_set(&set_operation), vec!["o1".to_string()]);
    assert_eq!(get_set_references_from_set(&set_operation), vec!["s2".to_string()]);
}

#[test]
fn intersection_with_one_operand_is_structurally_invalid() {
    let set_operation = SetOperation {
        set_id: "bad".to_string(),
        operation: SetOperationType::Intersection,
        operands: vec![SetOperand::ObjectRef("o1".to_string())],
        filter: None,
    };
    let err = validate_set_operation_structure(&set_operation).unwrap_err();
    match err {
        esp_scanner_base::resolution::error::ResolutionError::InvalidInput { message } => {
            assert_eq!(message, "Set 'bad' structure validation failed: INTERSECTION requires at least 2 operands, got 1");
        }
        other => panic!("unexpected {:?}", other),
    }
}

fn s(v: &str) -> JsonValue {
    JsonValue::String(v.to_string())
}

fn obj(members: Vec<(&str, JsonValue)>) -> JsonValue {
    JsonValue::Object(members.into_iter().map(|(k, v)| (k.to_string(), v)).collect())
}

fn arr(items: Vec<JsonValue>) -> JsonValue {
    JsonValue::Array(items)
}

fn set_json(id: &str, op: &str, operands: Vec<JsonValue>, filter: JsonValue) -> JsonValue {
    obj(vec![("set_id", s(id)), ("operation", s(op)), ("operands", arr(operands)), ("filter", filter)])
}

fn message(e: ResolutionError) -> String {
    match e {
        ResolutionError::InvalidInput { message } => message,
        other => panic!("unexpected error {:?}", other),
    }
}

#[test]
fn test_parse_union_set_operation() {
    let mut context = ResolutionContext::new();
    let set_json = set_json("test_union", "union",
        vec![obj(vec![("ObjectRef", s("object1"))]), obj(vec![("ObjectRef", s("object2"))])], JsonValue::Null);

    let result = parse_set_operation_from_json(&set_json, &mut context);
    assert!(result.is_ok());

    let set_operation = result.unwrap();
    assert_eq!(set_operation.set_id, "test_union");
    assert_eq!(set_operation.operation, SetOperationType::Union);
    assert_eq!(set_operation.operands.len(), 2);
    assert!(set_operation.filter.is_none());

    assert!(!context.deferred_validations.is_empty());
}

#[test]
fn test_parse_intersection_set_operation() {
    let mut context = ResolutionContext::new();
    let set_json = set_json("test_intersection", "intersection",
        vec![obj(vec![("ObjectRef", s("object1"))]), obj(vec![("SetRef", s("other_set"))])], JsonValue::Null);

    let result = parse_set_operation_from_json(&set_json, &mut context);
    assert!(result.is_ok());

    let set_operation = result.unwrap();
    assert_eq!(set_operation.operation, SetOperationType::Intersection);
    assert_eq!(set_operation.operands.len(), 2);

    assert!(!context.deferred_validations.is_empty());
}

#[test]
fn test_parse_complement_set_operation() {
    let mut context = ResolutionContext::new();
    let set_json = set_json("test_complement", "complement",
        vec![obj(vec![("ObjectRef", s("object1"))]), obj(vec![("ObjectRef", s("object2"))])], JsonValue::Null);

    let result = parse_set_operation_from_json(&set_json, &mut context);
    assert!(result.is_ok());

    let set_operation = result.unwrap();
    assert_eq!(set_operation.operation, SetOperationType::Complement);
    assert_eq!(set_operation.operands.len(), 2);
}

#[test]
fn test_parse_set_operation_with_filter() {
    let mut context = ResolutionContext::new();
    let set_json = set_json("test_filtered", "union", vec![obj(vec![("ObjectRef", s("object1"))])],
        obj(vec![("action", s("include")), ("state_refs", arr(vec![s("state1"), s("state2")]))]));

    let result = parse_set_operation_from_json(&set_json, &mut context);
    assert!(result.is_ok());

    let set_operation = result.unwrap();
    assert!(set_operation.filter.is_some());

    let filter_validations: Vec<_> = context
        .deferred_validations
        .iter()
        .filter(|v| matches!(v.validation_type, ValidationType::FilterStateReference))
        .collect();
    assert!(!filter_validations.is_empty());
}

#[test]
fn test_parse_set_operation_invalid_operand_count() {
    let mut context = ResolutionContext::new();
    let set_json = set_json("test_invalid", "intersection", vec![obj(vec![("ObjectRef", s("object1"))])], JsonValue::Null);

    let result = parse_set_operation_from_json(&set_json, &mut context);
    assert!(result.is_err());
}

#[test]
fn test_parse_set_operation_self_reference_allowed_in_dag() {
    let mut context = ResolutionContext::new();
    let set_json = set_json("self_referencing", "union", vec![obj(vec![("SetRef", s("self_referencing"))])], JsonValue::Null);

    let result = parse_set_operation_from_json(&set_json, &mut context);
    assert!(result.is_ok());

    assert!(!context.deferred_validations.is_empty());
}

#[test]
fn test_parse_set_operation_empty_operands() {
    let mut context = ResolutionContext::new();
    let set_json = set_json("test_empty", "union", vec![], JsonValue::Null);

    let result = parse_set_operation_from_json(&set_json, &mut context);
    assert!(result.is_err());
}

#[test]
fn test_parse_set_operation_invalid_operation_type() {
    let mut context = ResolutionContext::new();
    let set_json = set_json("test_invalid_op", "invalid_operation", vec![obj(vec![("ObjectRef", s("object1"))])], JsonValue::Null);

    let result = parse_set_operation_from_json(&set_json, &mut context);
    assert!(result.is_err());
}

#[test]
fn test_parse_object_ref_operand() {
    let mut context = ResolutionContext::new();
    let operand_json = obj(vec![("ObjectRef", s("test_object"))]);
    let result = parse_set_operand_from_json(&operand_json, "test_set", 0, &mut context);

    assert!(result.is_ok());
    if let SetOperand::ObjectRef(obj_id) = result.unwrap() {
        assert_eq!(obj_id, "test_object");
    } else {
        panic!("Expected ObjectRef operand");
    }

    assert!(!context.deferred_validations.is_empty());
}

#[test]
fn test_parse_set_ref_operand() {
    let mut context = ResolutionContext::new();
    let operand_json = obj(vec![("SetRef", s("other_set"))]);
    let result = parse_set_operand_from_json(&operand_json, "test_set", 0, &mut context);

    assert!(result.is_ok());
    if let SetOperand::SetRef(set_id) = result.unwrap() {
        assert_eq!(set_id, "other_set");
    } else {
        panic!("Expected SetRef operand");
    }

    assert!(!context.deferred_validations.is_empty());
}

#[test]
fn set_parse_errors_name_the_problem() {
    let mut context = ResolutionContext::new();
    let empty = set_json("e", "union", vec![], JsonValue::Null);
    assert_eq!(message(parse_set_operation_from_json(&empty, &mut context).unwrap_err()), "Set 'e' cannot have zero operands");
    let bad_count = set_json("c", "complement", vec![obj(vec![("ObjectRef", s("a"))])], JsonValue::Null);
    assert_eq!(message(parse_set_operation_from_json(&bad_count, &mut context).unwrap_err()),
        "Set 'c': COMPLEMENT requires exactly 2 operands, got 1");
    let unknown = set_json("u", "union", vec![obj(vec![("Other", s("a"))])], JsonValue::Null);
    assert_eq!(message(parse_set_operation_from_json(&unknown, &mut context).unwrap_err()),
        "Unknown set operand type in set 'u' at index 0");
    let bad_op = set_json("b", "merge", vec![obj(vec![("ObjectRef", s("a"))])], JsonValue::Null);
    assert_eq!(message(parse_set_operation_from_json(&bad_op, &mut context).unwrap_err()), "Invalid set operation type: merge");
    let bad_filter = set_json("f", "union", vec![obj(vec![("ObjectRef", s("a"))])], obj(vec![("action", s("include"))]));
    assert_eq!(message(parse_set_operation_from_json(&bad_filter, &mut context).unwrap_err()), "Failed to parse filter for set 'f'");
}

#[test]
fn set_operand_deferrals_name_the_operand() {
    let mut context = ResolutionContext::new();
    let operand_json = obj(vec![("ObjectRef", s("obj_a"))]);
    parse_set_operand_from_json(&operand_json, "s1", 3, &mut context).unwrap();
    assert_eq!(context.deferred_validations.len(), 1);
    let v = &context.deferred_validations[0];
    assert_eq!(v.validation_type, ValidationType::ObjectReference);
    assert_eq!(v.source_symbol, "SET:s1");
    assert_eq!(v.target_symbol, "obj_a");
    assert_eq!(v.context, "Set 's1' operand 3 references object 'obj_a'");
    let inline = obj(vec![("InlineObject", obj(vec![]))]);
    match parse_set_operand_from_json(&inline, "s1", 4, &mut context).unwrap() {
        SetOperand::InlineObject(d) => {
            assert_eq!(d.identifier, "inline_object");
            assert!(d.elements.is_empty());
        }
        _ => panic!("expected an inline object"),
    }
    assert_eq!(context.deferred_validations.len(), 1);
}

#[test]
fn set_operations_extracted_from_definition() {
    let mut context = ResolutionContext::new();
    let ast = obj(vec![("definition", obj(vec![("set_operations", arr(vec![
        set_json("s1", "union", vec![obj(vec![("ObjectRef", s("a"))])], JsonValue::Null),
        set_json("s2", "union", vec![obj(vec![("SetRef", s("s1"))])], JsonValue::Null),
    ]))]))]);
    let sets = extract_set_operations_from_json(&ast, &mut context).unwrap();
    assert_eq!(sets.len(), 2);
    assert_eq!(sets[1].set_id, "s2");
    assert_eq!(context.deferred_validations.len(), 2);

    let no_definition = obj(vec![]);
    let mut fresh = ResolutionContext::new();
    assert_eq!(message(extract_set_operations_from_json(&no_definition, &mut fresh).unwrap_err()), "No definition found in AST");

    let failing = obj(vec![("definition", obj(vec![("set_operations", arr(vec![
        set_json("s1", "union", vec![obj(vec![("ObjectRef", s("a"))])], JsonValue::Null),
        set_json("s2", "union", vec![], JsonValue::Null),
    ]))]))]);
    let mut ctx = ResolutionContext::new();
    assert!(extract_set_operations_from_json(&failing, &mut ctx).is_err());
    assert_eq!(ctx.parsing_errors.len(), 1);
    assert!(ctx.parsing_errors[0].starts_with("Failed to parse set operation at index 1: InvalidInput"));
}

#[test]
fn set_references_extracted() {
    let refs = arr(vec![s("a"), obj(vec![("set_id", s("b"))])]);
    assert_eq!(extract_set_references_from_json(&refs, "ctx").unwrap(), vec!["a".to_string(), "b".to_string()]);
    assert_eq!(message(extract_set_references_from_json(&s("a"), "ctx").unwrap_err()), "Set references must be an array in ctx");
    assert_eq!(message(extract_set_references_from_json(&arr(vec![JsonValue::Null]), "ctx").unwrap_err()),
        "Invalid set reference format at index 0 in ctx");
    assert_eq!(message(extract_set_references_from_json(&arr(vec![s("1a")]), "ctx").unwrap_err()),
        "Invalid set ID format '1a' in ctx");
}
