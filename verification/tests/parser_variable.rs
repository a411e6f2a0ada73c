use esp_scanner_base::json::{JsonNumber, JsonValue};
use esp_scanner_base::parser::variable::{
    extract_and_categorize_variables_from_json, extract_variables_from_json, parse_value_from_json,
};
use esp_scanner_base::resolution::error::ResolutionError;
use esp_scanner_base::types::common::{DataType, Value};
use esp_scanner_base::types::resolution_context::{ResolutionContext, ValidationType};

fn s(v: &str) -> JsonValue {
    JsonValue::String(v.to_string())
}

fn num(i: i64) -> JsonValue {
    JsonValue::Number(JsonNumber { int: Some(i), uint: if i >= 0 { Some(i as u64) } else { None }, float_bits: (i as f64).to_bits(), float_text: String::new() })
}

fn obj(members: Vec<(&str, JsonValue)>) -> JsonValue {
    JsonValue::Object(members.into_iter().map(|(k, v)| (k.to_string(), v)).collect())
}

fn arr(items: Vec<JsonValue>) -> JsonValue {
    JsonValue::Array(items)
}

fn message(e: ResolutionError) -> String {
    match e {
        ResolutionError::InvalidInput { message } => message,
        other => panic!("unexpected error {:?}", other),
    }
}

#[test]
fn test_computed_variable_parsing() {
    let ast_json = obj(vec![("definition", obj(vec![("variables", arr(vec![
        obj(vec![("name", s("computed_var")), ("data_type", s("String")), ("initial_value", JsonValue::Null)]),
        obj(vec![("name", s("literal_var")), ("data_type", s("Int")), ("initial_value", obj(vec![("Integer", num(42))]))]),
    ]))]))]);

    let variables = extract_variables_from_json(&ast_json).unwrap();
    assert_eq!(variables.len(), 2);

    let computed = variables.iter().find(|v| v.name == "computed_var").unwrap();
    assert!(computed.is_computed());
    assert!(!computed.has_initial_value());

    let literal = variables.iter().find(|v| v.name == "literal_var").unwrap();
    assert!(!literal.is_computed());
    assert!(literal.has_initial_value());
}

#[test]
fn test_variable_reference_parsing() {
    let ast_json = obj(vec![("definition", obj(vec![("variables", arr(vec![
        obj(vec![("name", s("ref_var")), ("data_type", s("String")), ("initial_value", obj(vec![("Variable", s("source_var"))]))]),
    ]))]))]);

    let variables = extract_variables_from_json(&ast_json).unwrap();
    assert_eq!(variables.len(), 1);

    let ref_var = &variables[0];
    assert!(!ref_var.is_computed());
    assert!(ref_var.has_variable_reference_initialization());
    assert_eq!(ref_var.get_initialization_dependency(), Some("source_var"));
}

#[test]
fn test_empty_variables_section() {
    let ast_json = obj(vec![("definition", obj(vec![]))]);

    let variables = extract_variables_from_json(&ast_json).unwrap();
    assert_eq!(variables.len(), 0);
}

#[test]
fn values_parse_in_order_of_kind() {
    assert!(matches!(parse_value_from_json(&obj(vec![("String", s("x"))])).unwrap(), Value::String(ref v) if v == "x"));
    assert!(matches!(parse_value_from_json(&obj(vec![("Integer", num(-7))])).unwrap(), Value::Integer(-7)));
    assert!(matches!(parse_value_from_json(&obj(vec![("Boolean", JsonValue::Bool(true))])).unwrap(), Value::Boolean(true)));
    assert!(matches!(parse_value_from_json(&obj(vec![("Variable", s("v"))])).unwrap(), Value::Variable(ref v) if v == "v"));
    let half = JsonValue::Number(JsonNumber { int: None, uint: None, float_bits: 0.5f64.to_bits(), float_text: "0.5".to_string() });
    match parse_value_from_json(&obj(vec![("Float", half)])).unwrap() {
        Value::Float(bits) => assert_eq!(f64::from_bits(bits), 0.5),
        other => panic!("unexpected {:?}", other),
    }
    assert_eq!(message(parse_value_from_json(&obj(vec![("Other", s("x"))])).unwrap_err()), "Unknown value type in JSON");
}

#[test]
fn variable_errors_name_the_problem() {
    let no_def = obj(vec![]);
    assert_eq!(message(extract_variables_from_json(&no_def).unwrap_err()), "No definition found in AST");
    let ast = |v: JsonValue| obj(vec![("definition", obj(vec![("variables", arr(vec![v]))]))]);
    assert_eq!(message(extract_variables_from_json(&ast(obj(vec![("data_type", s("Int"))]))).unwrap_err()), "Variable missing name");
    assert_eq!(message(extract_variables_from_json(&ast(obj(vec![("name", s("  ")), ("data_type", s("Int"))]))).unwrap_err()),
        "Variable name cannot be empty");
    assert_eq!(message(extract_variables_from_json(&ast(obj(vec![("name", s("a"))]))).unwrap_err()), "Variable missing data_type");
    assert_eq!(message(extract_variables_from_json(&ast(obj(vec![("name", s("a")), ("data_type", s("Nope"))]))).unwrap_err()),
        "Invalid data type: Nope");
}

#[test]
fn variables_are_categorized_in_context() {
    let ast_json = obj(vec![("definition", obj(vec![("variables", arr(vec![
        obj(vec![("name", s("c")), ("data_type", s("String"))]),
        obj(vec![("name", s("l")), ("data_type", s("Int")), ("initial_value", obj(vec![("Integer", num(1))]))]),
        obj(vec![("name", s("r")), ("data_type", s("Int")), ("initial_value", obj(vec![("Variable", s("l"))]))]),
    ]))]))]);
    let mut context = ResolutionContext::new();
    let vars = extract_and_categorize_variables_from_json(&ast_json, &mut context).unwrap();
    assert_eq!(vars.len(), 3);
    assert_eq!(vars[1].data_type, DataType::Int);
    assert_eq!(context.computed_variables, vec!["c".to_string()]);
    assert_eq!(context.literal_variables, vec!["l".to_string()]);
    assert_eq!(context.reference_variables, vec![("r".to_string(), "l".to_string())]);
    assert_eq!(context.deferred_validations.len(), 1);
    assert_eq!(context.deferred_validations[0].validation_type, ValidationType::VariableReference);
    assert_eq!(context.deferred_validations[0].context, "Variable initialization: r = VAR l");
}
