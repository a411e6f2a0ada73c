use esp_scanner_base::json::{JsonNumber, JsonValue};
use esp_scanner_base::resolution::error::ResolutionError;
use esp_scanner_base::resolution::symbol_parser::{
    extract_symbol_metadata, parse_relationships_from_json, parse_single_relationship, validate_relationships,
};
use esp_scanner_base::types::resolution_context::{RelationshipType, SymbolRelationship};

fn s(v: &str) -> JsonValue {
    JsonValue::String(v.to_string())
}

fn uint(u: u64) -> JsonValue {
    JsonValue::Number(JsonNumber { int: Some(u as i64), uint: Some(u), float_bits: (u as f64).to_bits(), float_text: String::new() })
}

fn obj(members: Vec<(&str, JsonValue)>) -> JsonValue {
    JsonValue::Object(members.into_iter().map(|(k, v)| (k.to_string(), v)).collect())
}

fn arr(items: Vec<JsonValue>) -> JsonValue {
    JsonValue::Array(items)
}

fn message(e: ResolutionError) -> String {
    match e {
        ResolutionError::InvalidInput { message } => message,
        other => panic!("unexpected error {:?}", other),
    }
}

#[test]
fn test_parse_simple_relationship() {
    let json = obj(vec![("source", s("var_a")), ("target", s("var_b")), ("relationship_type", s("VariableUsage"))]);

    let result = parse_single_relationship(&json, 0).unwrap();

    assert_eq!(result.source, "var_a");
    assert_eq!(result.target, "var_b");
    assert_eq!(result.relationship_type, RelationshipType::VariableUsage);
    assert_eq!(result.ctn_context, None);
}

#[test]
fn test_parse_relationship_with_ctn_context() {
    let json = obj(vec![
        ("source", s("local_state")),
        ("target", s("global_var")),
        ("relationship_type", s("LocalStateDependency")),
        ("ctn_context", uint(42)),
    ]);

    let result = parse_single_relationship(&json, 0).unwrap();

    assert_eq!(result.ctn_context, Some(42));
}

#[test]
fn test_parse_relationships_array() {
    let json = obj(vec![("relationships", arr(vec![
        obj(vec![("source", s("op1")), ("target", s("var1")), ("relationship_type", s("RunOperationInput"))]),
        obj(vec![("source", s("set1")), ("target", s("obj1")), ("relationship_type", s("ObjectReference"))]),
    ]))]);

    let result = parse_relationships_from_json(&json).unwrap();

    assert_eq!(result.len(), 2);
    assert_eq!(result[0].relationship_type, RelationshipType::RunOperationInput);
    assert_eq!(result[1].relationship_type, RelationshipType::ObjectReference);
}

#[test]
fn test_parse_invalid_relationship_type() {
    let json = obj(vec![("source", s("a")), ("target", s("b")), ("relationship_type", s("InvalidType"))]);

    let result = parse_single_relationship(&json, 0);
    assert!(result.is_err());
}

#[test]
fn test_extract_symbol_metadata() {
    let json = obj(vec![
        ("global_symbols", obj(vec![
            ("variables", obj(vec![("var1", obj(vec![
                ("identifier", s("var1")), ("data_type", s("String")), ("initial_value", s("test")),
            ]))])),
            ("states", obj(vec![("state1", obj(vec![("identifier", s("state1")), ("element_count", uint(3))]))])),
            ("objects", obj(vec![])),
            ("sets", obj(vec![])),
        ])),
        ("local_symbol_tables", arr(vec![])),
    ]);

    let metadata = extract_symbol_metadata(&json).unwrap();

    assert_eq!(metadata.variables.len(), 1);
    assert_eq!(metadata.global_states.len(), 1);
    assert!(metadata.has_global_symbol("var1"));
    assert!(metadata.has_global_symbol("state1"));
    assert!(!metadata.has_global_symbol("nonexistent"));
}

#[test]
fn relationship_errors_name_the_field() {
    assert_eq!(message(parse_single_relationship(&s("x"), 3).unwrap_err()), "Relationship at index 3 is not a JSON object");
    let no_target = obj(vec![("source", s("a")), ("relationship_type", s("VariableUsage"))]);
    assert_eq!(message(parse_single_relationship(&no_target, 1).unwrap_err()), "Missing or invalid 'target' field at index 1");
    let bad_type = obj(vec![("source", s("a")), ("target", s("b")), ("relationship_type", s("Nope"))]);
    assert_eq!(message(parse_single_relationship(&bad_type, 2).unwrap_err()), "Unknown relationship type 'Nope' at index 2");
}

#[test]
fn unparsable_relationships_are_skipped() {
    let json = obj(vec![("relationships", arr(vec![
        s("junk"),
        obj(vec![("source", s("a")), ("target", s("b")), ("relationship_type", s("SetReference"))]),
    ]))]);
    let rels = parse_relationships_from_json(&json).unwrap();
    assert_eq!(rels.len(), 1);
    assert_eq!(rels[0].source, "a");
    assert_eq!(message(parse_relationships_from_json(&obj(vec![])).unwrap_err()), "Symbol table missing relationships array");
    assert_eq!(message(parse_relationships_from_json(&obj(vec![("relationships", s("x"))])).unwrap_err()),
        "Relationships must be an array");
}

#[test]
fn local_symbols_and_totals() {
    let json = obj(vec![
        ("global_symbols", obj(vec![
            ("variables", obj(vec![("v", obj(vec![]))])),
            ("states", obj(vec![])),
            ("objects", obj(vec![("o", obj(vec![]))])),
            ("sets", obj(vec![("s", obj(vec![]))])),
        ])),
        ("local_symbol_tables", arr(vec![
            obj(vec![("ctn_node_id", uint(7)), ("ctn_type", s("file")), ("states", obj(vec![("a", obj(vec![])), ("b", obj(vec![]))])),
                ("object", obj(vec![]))]),
            obj(vec![("ctn_type", s("missing id"))]),
        ])),
    ]);
    let m = extract_symbol_metadata(&json).unwrap();
    assert_eq!(m.total_symbol_count(), 3 + 2 + 1);
    assert_eq!(m.variables.get("v").unwrap().identifier, "v");
    assert_eq!(m.variables.get("v").unwrap().element_count, 0);
    assert_eq!(m.get_symbol_type("s"), Some("SetOperation"));

    let rels = vec![
        SymbolRelationship { relationship_type: RelationshipType::ObjectReference, source: "s".to_string(), target: "o".to_string(), ctn_context: None },
        SymbolRelationship { relationship_type: RelationshipType::SetReference, source: "s".to_string(), target: "v".to_string(), ctn_context: None },
        SymbolRelationship { relationship_type: RelationshipType::VariableUsage, source: "zz".to_string(), target: "v".to_string(), ctn_context: None },
    ];
    assert_eq!(
        message(validate_relationships(&rels, &m).unwrap_err()),
        "Relationship validation failed: Relationship 1: Invalid relationship type 'SetReference' between source type 'Some(\"SetOperation\")' and target type 'Some(\"Variable\")'; Relationship 2: source symbol 'zz' not found in metadata"
    );
    let good = vec![SymbolRelationship { relationship_type: RelationshipType::ObjectReference, source: "s".to_string(), target: "o".to_string(), ctn_context: None }];
    assert!(validate_relationships(&good, &m).is_ok());
}
