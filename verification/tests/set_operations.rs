use esp_scanner_base::resolution::set_operations::{execute_union, execute_intersection, execute_complement};
use esp_scanner_base::resolution::error::ResolutionError;
use esp_scanner_base::types::object::ResolvedObject;

fn obj(id: &str) -> ResolvedObject {
    ResolvedObject { identifier: id.to_string(), resolved_elements: vec![], is_global: true }
}

#[test]
fn test_union_operation() {
    let obj1 = obj("obj1");
    let obj2 = obj("obj2");
    let obj3 = obj("obj1");
    let object_lists = vec![vec![obj1], vec![obj2, obj3]];
    let result = execute_union(&object_lists, "test_union").unwrap();
    assert_eq!(result.len(), 2);
    assert!(result.iter().any(|obj| obj.identifier == "obj1"));
    assert!(result.iter().any(|obj| obj.identifier == "obj2"));
}

#[test]
fn test_intersection_operation() {
    let object_lists = vec![vec![obj("obj1"), obj("obj2")], vec![obj("obj1"), obj("obj3")]];
    let result = execute_intersection(&object_lists, "test_intersection").unwrap();
    assert_eq!(result.len(), 1);
    assert_eq!(result[0].identifier, "obj1");
}

#[test]
fn test_complement_operation() {
    let object_lists = vec![vec![obj("obj1"), obj("obj2")], vec![obj("obj1")]];
    let result = execute_complement(&object_lists, "test_complement").unwrap();
    assert_eq!(result.len(), 1);
    assert_eq!(result[0].identifier, "obj2");
}

#[test]
fn test_complement_wrong_operand_count() {
    let object_lists = vec![vec![obj("obj1")]];
    let result = execute_complement(&object_lists, "test_bad_complement");
    assert!(result.is_err());
}

#[test]
fn union_keeps_first_occurrence_order() {
    let object_lists = vec![vec![obj("b"), obj("a")], vec![obj("a"), obj("c"), obj("b")]];
    let result = execute_union(&object_lists, "u").unwrap();
    let ids: Vec<&str> = result.iter().map(|o| o.identifier.as_str()).collect();
    assert_eq!(ids, vec!["b", "a", "c"]);
}

#[test]
fn intersection_of_three_operands() {
    let object_lists = vec![
        vec![obj("a"), obj("b"), obj("c")],
        vec![obj("c"), obj("a")],
        vec![obj("a"), obj("x"), obj("c")],
    ];
    let result = execute_intersection(&object_lists, "i").unwrap();
    let ids: Vec<&str> = result.iter().map(|o| o.identifier.as_str()).collect();
    assert_eq!(ids, vec!["a", "c"]);
}

#[test]
fn intersection_without_operands_is_empty() {
    let object_lists: Vec<Vec<ResolvedObject>> = vec![];
    assert!(execute_intersection(&object_lists, "i").unwrap().is_empty());
}

#[test]
fn complement_error_names_the_count() {
    let object_lists = vec![vec![obj("a")], vec![obj("b")], vec![obj("c")]];
    match execute_complement(&object_lists, "bad") {
        Err(ResolutionError::SetOperationFailed { set_id, reason }) => {
            assert_eq!(set_id, "bad");
            assert_eq!(reason, "COMPLEMENT requires exactly 2 operands, got 3");
        }
        other => panic!("unexpected {:?}", other),
    }
}
