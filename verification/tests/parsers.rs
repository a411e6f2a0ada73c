use esp_scanner_base::json::{JsonNumber, JsonValue};
use esp_scanner_base::parser::metadata::{extract_metadata_from_json, parse_metadata_from_json};
use esp_scanner_base::parser::object::{parse_object_from_json, ObjectParsingContext};
use esp_scanner_base::parser::runtime_operation::extract_runtime_operations_from_json;
use esp_scanner_base::parser::state::parse_state_from_json;
use esp_scanner_base::parser::structure::is_reserved;
use esp_scanner_base::resolution::error::ResolutionError;
use esp_scanner_base::types::common::{DataType, Operation, Value};
use esp_scanner_base::types::object::ObjectElement;
use esp_scanner_base::types::resolution_context::{ResolutionContext, ValidationType};
use esp_scanner_base::types::runtime_operation::{RunParameter, RuntimeOperationType};
use esp_scanner_base::types::variable::VariableDeclaration;

fn s(v: &str) -> JsonValue {
    JsonValue::String(v.to_string())
}

fn num(i: i64) -> JsonValue {
    JsonValue::Number(JsonNumber { int: Some(i), uint: if i >= 0 { Some(i as u64) } else { None }, float_bits: (i as f64).to_bits(), float_text: String::new() })
}

fn obj(members: Vec<(&str, JsonValue)>) -> JsonValue {
    JsonValue::Object(members.into_iter().map(|(k, v)| (k.to_string(), v)).collect())
}

fn arr(items: Vec<JsonValue>) -> JsonValue {
    JsonValue::Array(items)
}

fn message(e: ResolutionError) -> String {
    match e {
        ResolutionError::InvalidInput { message } => message,
        other => panic!("unexpected error {:?}", other),
    }
}

fn state_field(name: &str, dt: &str, op: &str, value: JsonValue) -> JsonValue {
    obj(vec![("name", s(name)), ("data_type", s(dt)), ("operation", s(op)), ("value", value)])
}

#[test]
fn state_reads_typed_fields() {
    let j = obj(vec![("id", s("perm_state")), ("fields", arr(vec![
        state_field("mode", "Int", "Equals", obj(vec![("Integer", num(420))])),
        state_field("owner", "String", "NotEqual", obj(vec![("Variable", s("who"))])),
    ]))]);
    let st = parse_state_from_json(&j, true).unwrap();
    assert_eq!(st.identifier, "perm_state");
    assert!(st.is_global);
    assert_eq!(st.fields.len(), 2);
    assert_eq!(st.fields[0].data_type, DataType::Int);
    assert_eq!(st.fields[0].operation, Operation::Equals);
    assert!(matches!(st.fields[0].value, Value::Integer(420)));
    assert_eq!(st.fields[1].operation, Operation::NotEqual);
    assert!(matches!(&st.fields[1].value, Value::Variable(n) if n == "who"));
}

#[test]
fn state_errors_name_the_cause() {
    assert_eq!(message(parse_state_from_json(&obj(vec![]), true).unwrap_err()), "State missing id");
    let bad_id = obj(vec![("id", s("1st"))]);
    assert_eq!(message(parse_state_from_json(&bad_id, true).unwrap_err()), "Invalid state identifier format: '1st'");
    let empty = obj(vec![("id", s("st"))]);
    assert_eq!(message(parse_state_from_json(&empty, true).unwrap_err()), "State 'st' cannot be empty");
    let mismatch = obj(vec![("id", s("st")), ("fields", arr(vec![
        state_field("mode", "Int", "Equals", obj(vec![("String", s("420"))])),
    ]))]);
    assert_eq!(
        message(parse_state_from_json(&mismatch, true).unwrap_err()),
        "Type mismatch in state 'st' field 'mode': integer requires number without backticks"
    );
    let bad_op = obj(vec![("id", s("st")), ("fields", arr(vec![
        state_field("mode", "Int", "Sideways", obj(vec![("Integer", num(1))])),
    ]))]);
    assert_eq!(message(parse_state_from_json(&bad_op, true).unwrap_err()), "Invalid operation: Sideways");
}

#[test]
fn object_skips_elements_that_do_not_parse() {
    let j = obj(vec![("id", s("cfg")), ("elements", arr(vec![
        obj(vec![("Field", obj(vec![("name", s("path")), ("value", obj(vec![("Variable", s("p"))]))]))]),
        obj(vec![("Mystery", num(1))]),
        obj(vec![("SetRef", obj(vec![("set_id", s("files"))]))]),
    ]))]);
    let mut pc = ObjectParsingContext::new();
    let o = parse_object_from_json(&j, true, &mut pc).unwrap();
    assert_eq!(o.identifier, "cfg");
    assert_eq!(o.elements.len(), 2);
    assert!(matches!(&o.elements[0], ObjectElement::Field { name, .. } if name == "path"));
    assert!(matches!(&o.elements[1], ObjectElement::SetRef { set_id } if set_id == "files"));
    assert_eq!(pc.parsing_errors.len(), 1);
    assert!(pc.parsing_errors[0].starts_with("Failed to parse element 1 in object 'cfg': "));
    assert_eq!(pc.deferred_validations.len(), 2);
    assert_eq!(pc.deferred_validations[0].validation_type, ValidationType::VariableReference);
    assert_eq!(pc.deferred_validations[1].validation_type, ValidationType::SetReference);
}

#[test]
fn object_without_elements_is_refused() {
    let mut pc = ObjectParsingContext::new();
    let e = parse_object_from_json(&obj(vec![("id", s("cfg")), ("elements", arr(vec![]))]), true, &mut pc).unwrap_err();
    assert_eq!(message(e), "Object 'cfg' cannot be empty");
    let e = parse_object_from_json(&obj(vec![("id", s("cfg"))]), true, &mut pc).unwrap_err();
    assert_eq!(message(e), "Object missing elements");
}

fn meta_field(name: &str, value: &str) -> JsonValue {
    obj(vec![("name", s(name)), ("value", s(value))])
}

#[test]
fn metadata_reads_its_fields() {
    let m = obj(vec![("fields", arr(vec![meta_field("ics_scan_id", "scan-0001"), meta_field("platform", "linux")]))]);
    let b = parse_metadata_from_json(&m).unwrap();
    assert_eq!(b.fields.get("platform").unwrap(), "linux");
    assert_eq!(message(parse_metadata_from_json(&s("x")).unwrap_err()), "Metadata must be an object, found string");
    assert_eq!(message(parse_metadata_from_json(&obj(vec![])).unwrap_err()), "Metadata missing fields array");
}

#[test]
fn metadata_requires_the_scan_fields() {
    let partial = obj(vec![("metadata", obj(vec![("fields", arr(vec![meta_field("ics_scan_id", "scan-0001")]))]))]);
    assert_eq!(
        message(extract_metadata_from_json(&partial).unwrap_err()),
        "ICS scan output validation failed: Missing required fields: [control_framework, control, platform, criticality, tags]"
    );
    let bad_criticality = obj(vec![("metadata", obj(vec![("fields", arr(vec![
        meta_field("ics_scan_id", "scan-0001"),
        meta_field("control_framework", "NIST"),
        meta_field("control", "AC-2"),
        meta_field("platform", "linux"),
        meta_field("criticality", "extreme"),
        meta_field("tags", "accounts"),
    ]))]))]);
    assert_eq!(
        message(extract_metadata_from_json(&bad_criticality).unwrap_err()),
        "Invalid criticality value: 'extreme' (valid: low, medium, high, critical)"
    );
    assert_eq!(
        message(extract_metadata_from_json(&obj(vec![])).unwrap_err()),
        "ICS definition missing required metadata block"
    );
}

#[test]
fn runtime_operations_read_their_parameters() {
    let ast = obj(vec![("definition", obj(vec![("runtime_operations", arr(vec![obj(vec![
        ("target_variable", s("name_len")),
        ("operation_type", s("COUNT")),
        ("parameters", arr(vec![obj(vec![("Variable", s("names"))]), obj(vec![("Length", num(3))])])),
    ])]))]))]);
    let ops = extract_runtime_operations_from_json(&ast).unwrap();
    assert_eq!(ops.len(), 1);
    assert_eq!(ops[0].target_variable, "name_len");
    assert_eq!(ops[0].operation_type, RuntimeOperationType::Count);
    assert!(matches!(&ops[0].parameters[0], RunParameter::Variable(v) if v == "names"));
    assert!(matches!(ops[0].parameters[1], RunParameter::Length(3)));
    assert_eq!(message(extract_runtime_operations_from_json(&obj(vec![])).unwrap_err()), "No definition found in AST");
}

#[test]
fn structure_check_reports_every_problem() {
    let mut context = ResolutionContext::new();
    context.variables.push(VariableDeclaration { name: "x".to_string(), data_type: DataType::Int, initial_value: Some(Value::Variable("x".to_string())) });
    context.variables.push(VariableDeclaration { name: "x".to_string(), data_type: DataType::Int, initial_value: None });
    let e = ResolutionContext::validate_structure_only(&context).unwrap_err();
    assert_eq!(e, "Variable 'x' references itself; Duplicate global identifier: 'x'");

    let mut ok = ResolutionContext::new();
    ok.variables.push(VariableDeclaration { name: "y".to_string(), data_type: DataType::Int, initial_value: None });
    assert!(ResolutionContext::validate_structure_only(&ok).is_ok());
}

#[test]
fn reserved_words_are_recognised() {
    assert!(is_reserved("CTN"));
    assert!(is_reserved("true"));
    assert!(!is_reserved("ctn"));
}
