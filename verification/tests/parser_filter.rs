use esp_scanner_base::json::JsonValue;
use esp_scanner_base::parser::filter::{
    extract_filter_from_json, extract_filter_from_json_with_context,
    parse_filter_from_object_element_with_context, parse_filter_from_set_context,
};
use esp_scanner_base::resolution::error::ResolutionError;
use esp_scanner_base::strings::is_valid_identifier;
use esp_scanner_base::types::filter::FilterAction;

fn s(v: &str) -> JsonValue {
    JsonValue::String(v.to_string())
}

fn obj(members: Vec<(&str, JsonValue)>) -> JsonValue {
    JsonValue::Object(members.into_iter().map(|(k, v)| (k.to_string(), v)).collect())
}

fn arr(items: Vec<JsonValue>) -> JsonValue {
    JsonValue::Array(items)
}

fn message(e: ResolutionError) -> String {
    match e {
        ResolutionError::InvalidInput { message } => message,
        other => panic!("unexpected error {:?}", other),
    }
}

#[test]
fn test_extract_filter_with_include_action_dag_context() {
    let filter_json = obj(vec![("action", s("include")), ("state_refs", arr(vec![s("state1"), s("state2")]))]);

    let result = extract_filter_from_json_with_context(&filter_json, "test_source", "test_context");
    assert!(result.is_ok());

    let filter_result = result.unwrap();
    assert_eq!(filter_result.filter.action, FilterAction::Include);
    assert_eq!(filter_result.filter.state_refs.len(), 2);
    assert!(filter_result.filter.state_refs.contains(&"state1".to_string()));
    assert!(filter_result.filter.state_refs.contains(&"state2".to_string()));

    assert_eq!(filter_result.context.deferred_validations.len(), 2);
    assert_eq!(filter_result.context.state_references.len(), 2);
}

#[test]
fn test_extract_filter_with_exclude_action() {
    let filter_json = obj(vec![("action", s("exclude")), ("state_refs", arr(vec![s("state3")]))]);

    let result = extract_filter_from_json(&filter_json, "test_context");
    assert!(result.is_ok());

    let filter = result.unwrap();
    assert_eq!(filter.action, FilterAction::Exclude);
    assert_eq!(filter.state_refs.len(), 1);
    assert_eq!(filter.state_refs[0], "state3");
}

#[test]
fn test_extract_filter_with_state_ref_objects() {
    let filter_json = obj(vec![
        ("action", s("include")),
        ("state_refs", arr(vec![obj(vec![("state_id", s("state1"))]), obj(vec![("state_id", s("state2"))])])),
    ]);

    let result = extract_filter_from_json_with_context(&filter_json, "test_source", "test_context");
    assert!(result.is_ok());

    let filter_result = result.unwrap();
    assert_eq!(filter_result.filter.state_refs.len(), 2);
    assert_eq!(filter_result.context.deferred_validations.len(), 2);
}

#[test]
fn test_extract_filter_missing_action_with_fallback() {
    let filter_json = obj(vec![("state_refs", arr(vec![s("state1")]))]);

    let result = extract_filter_from_json(&filter_json, "test_context");
    assert!(result.is_err());
}

#[test]
fn test_extract_filter_empty_state_refs() {
    let filter_json = obj(vec![("action", s("include")), ("state_refs", arr(vec![]))]);

    let result = extract_filter_from_json(&filter_json, "test_context");
    assert!(result.is_err());
}

#[test]
fn test_extract_filter_invalid_action_with_fallback() {
    let filter_json = obj(vec![("action", s("invalid_action")), ("state_refs", arr(vec![s("state1")]))]);

    let result = extract_filter_from_json_with_context(&filter_json, "test_source", "test_context");
    assert!(result.is_ok());

    let filter_result = result.unwrap();
    assert_eq!(filter_result.filter.action, FilterAction::Include);
    assert_eq!(filter_result.context.parsing_errors.len(), 1);
    assert_eq!(filter_result.context.deferred_validations.len(), 1);
}

#[test]
fn test_is_valid_identifier() {
    assert!(is_valid_identifier("valid_id"));
    assert!(is_valid_identifier("_underscore"));
    assert!(is_valid_identifier("mixed123"));
    assert!(!is_valid_identifier("123invalid"));
    assert!(!is_valid_identifier(""));
    assert!(!is_valid_identifier("invalid-dash"));
}

#[test]
fn test_parse_filter_from_object_element_with_context() {
    let filter_json = obj(vec![("action", s("include")), ("state_refs", arr(vec![s("state1")]))]);

    let result = parse_filter_from_object_element_with_context(&filter_json, "test_object");
    assert!(result.is_ok());

    let filter_result = result.unwrap();
    assert_eq!(filter_result.context.deferred_validations.len(), 1);
    assert_eq!(filter_result.context.state_references.len(), 1);
}

#[test]
fn test_parse_filter_with_invalid_state_refs_continues_parsing() {
    let filter_json = obj(vec![
        ("action", s("include")),
        ("state_refs", arr(vec![s("valid_state"), s(""), s("123invalid"), s("another_valid")])),
    ]);

    let result = extract_filter_from_json_with_context(&filter_json, "test_source", "test_context");
    assert!(result.is_ok());

    let filter_result = result.unwrap();
    assert_eq!(filter_result.filter.state_refs.len(), 2);
    assert!(filter_result.filter.state_refs.contains(&"valid_state".to_string()));
    assert!(filter_result.filter.state_refs.contains(&"another_valid".to_string()));

    assert!(filter_result.context.parsing_errors.len() > 0);
    assert_eq!(filter_result.context.deferred_validations.len(), 2);
}

#[test]
fn filter_errors_name_the_problem() {
    assert_eq!(
        message(extract_filter_from_json(&JsonValue::Null, "ctx").unwrap_err()),
        "Filter specification cannot be null in ctx"
    );
    let no_action = obj(vec![("state_refs", arr(vec![s("a")]))]);
    assert_eq!(message(extract_filter_from_json(&no_action, "ctx").unwrap_err()), "Filter missing action in ctx");
    let bad_action = obj(vec![("action", arr(vec![])), ("state_refs", arr(vec![s("a")]))]);
    assert_eq!(
        message(extract_filter_from_json(&bad_action, "ctx").unwrap_err()),
        "Filter action must be a string in ctx"
    );
    let no_refs = obj(vec![("action", s("include"))]);
    assert_eq!(message(extract_filter_from_json(&no_refs, "ctx").unwrap_err()), "Filter missing state_refs in ctx");
    let refs_not_array = obj(vec![("action", s("include")), ("state_refs", s("a"))]);
    assert_eq!(
        message(extract_filter_from_json(&refs_not_array, "ctx").unwrap_err()),
        "Filter state_refs must be an array in ctx"
    );
    let missing_id = obj(vec![("action", s("include")), ("state_refs", arr(vec![obj(vec![("other", s("a"))])]))]);
    assert_eq!(
        message(extract_filter_from_json(&missing_id, "ctx").unwrap_err()),
        "State reference object missing state_id in ctx"
    );
    let empty = obj(vec![("action", s("include")), ("state_refs", arr(vec![s("")]))]);
    assert_eq!(
        message(parse_filter_from_set_context(&empty, "s1").unwrap_err()),
        "Filter in 'set 's1'' must reference at least one state"
    );
}

#[test]
fn filter_state_refs_are_deduplicated_and_errors_recorded() {
    let filter_json = obj(vec![
        ("action", s("exclude")),
        ("state_refs", arr(vec![s("a"), JsonValue::Null, s("a"), s("b"), s("1x")])),
    ]);
    let r = extract_filter_from_json_with_context(&filter_json, "src", "ctx").unwrap();
    assert_eq!(r.filter.state_refs, vec!["a".to_string(), "b".to_string()]);
    assert_eq!(
        r.context.parsing_errors,
        vec![
            "Invalid state reference format at index 1 in context 'ctx'".to_string(),
            "Invalid state ID format '1x' at index 4 in context 'ctx'".to_string(),
        ]
    );
    assert_eq!(r.context.deferred_validations.len(), 3);
    assert_eq!(r.context.deferred_validations[2].target_symbol, "b");
    assert_eq!(r.context.deferred_validations[2].context, "filter state reference in ctx");
    assert_eq!(r.context.state_references[0], ("src".to_string(), "a".to_string(), "filter state reference in ctx".to_string()));
}
