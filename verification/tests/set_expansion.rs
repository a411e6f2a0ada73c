use esp_scanner_base::resolution::set_expansion::{extract_set_ref_from_declaration_object,
    expand_set_ref_in_declaration_helper, validate_set_expansions, expand_sets_in_resolution_context};
use esp_scanner_base::resolution::error::ResolutionError;
use esp_scanner_base::types::criterion::CriterionDeclaration;
use esp_scanner_base::types::criteria::CriteriaTree;
use esp_scanner_base::types::object::{ObjectDeclaration, ObjectElement, ObjectRef, ResolvedObject, ResolvedObjectElement};
use esp_scanner_base::types::resolution_context::ResolutionContext;
use esp_scanner_base::types::set::{ResolvedSetOperand, ResolvedSetOperation, SetOperationType};
use esp_scanner_base::types::test::{TestSpecification, ExistenceCheck, ItemCheck};

#[test]
fn test_extract_set_ref_from_declaration_object() {
    let object_with_set_ref = ObjectDeclaration {
        identifier: "test_obj".to_string(),
        elements: vec![ObjectElement::SetRef { set_id: "my_set".to_string() }],
        is_global: true,
    };
    assert_eq!(extract_set_ref_from_declaration_object(&object_with_set_ref), Some("my_set".to_string()));

    let object_without_set_ref = ObjectDeclaration { identifier: "test_obj".to_string(), elements: vec![], is_global: true };
    assert_eq!(extract_set_ref_from_declaration_object(&object_without_set_ref), None);
}

fn resolved(id: &str) -> ResolvedObject {
    ResolvedObject { identifier: id.to_string(), resolved_elements: vec![], is_global: true }
}

fn criterion(ctn: &str, object_refs: Vec<ObjectRef>, local_object: Option<ObjectDeclaration>) -> CriterionDeclaration {
    CriterionDeclaration {
        criterion_type: ctn.to_string(),
        test: TestSpecification::simple(ExistenceCheck::All, ItemCheck::All),
        state_refs: vec![],
        object_refs,
        local_states: vec![],
        local_object,
        ctn_node_id: Some(1),
    }
}

#[test]
fn test_expand_set_ref_in_declaration_with_local_object() {
    let mut context = ResolutionContext::new();
    context.resolved_global_objects.insert("obj1".to_string(), resolved("obj1"));
    context.resolved_global_objects.insert("obj2".to_string(), resolved("obj2"));
    let resolved_set = ResolvedSetOperation {
        set_id: "test_set".to_string(),
        operation: SetOperationType::Union,
        resolved_operands: vec![
            ResolvedSetOperand::ObjectRef("obj1".to_string()),
            ResolvedSetOperand::ObjectRef("obj2".to_string()),
        ],
        resolved_filter: None,
    };
    context.resolved_sets.insert("test_set".to_string(), resolved_set);

    let mut declaration = criterion("test_ctn", vec![], Some(ObjectDeclaration {
        identifier: "local_obj".to_string(),
        elements: vec![ObjectElement::SetRef { set_id: "test_set".to_string() }],
        is_global: false,
    }));

    let expanded = expand_set_ref_in_declaration_helper(
        &mut declaration,
        &context.resolved_sets,
        &context.resolved_global_objects,
    ).unwrap();

    assert!(expanded, "Should have expanded");
    assert!(declaration.local_object.is_none(), "Local object should be cleared");
    assert_eq!(declaration.object_refs.len(), 2, "Should have 2 expanded object refs");
    assert!(declaration.object_refs.iter().any(|r| r.object_id == "obj1"));
    assert!(declaration.object_refs.iter().any(|r| r.object_id == "obj2"));
}

#[test]
fn test_validate_circular_set_ref() {
    let mut context = ResolutionContext::new();
    let set_a = ResolvedSetOperation {
        set_id: "set_a".to_string(),
        operation: SetOperationType::Union,
        resolved_operands: vec![ResolvedSetOperand::SetRef("set_b".to_string())],
        resolved_filter: None,
    };
    let set_b = ResolvedSetOperation {
        set_id: "set_b".to_string(),
        operation: SetOperationType::Union,
        resolved_operands: vec![ResolvedSetOperand::SetRef("set_a".to_string())],
        resolved_filter: None,
    };
    context.resolved_sets.insert("set_a".to_string(), set_a);
    context.resolved_sets.insert("set_b".to_string(), set_b);

    let result = validate_set_expansions(&context);
    assert!(result.is_err(), "Should detect circular dependency");
    if let Err(ResolutionError::CircularDependency { cycle }) = result {
        assert!(cycle.contains(&"set_a".to_string()));
        assert!(cycle.contains(&"set_b".to_string()));
    } else {
        panic!("Expected CircularDependency error");
    }
}

#[test]
fn global_container_is_replaced_by_its_set() {
    let mut context = ResolutionContext::new();
    context.resolved_global_objects.insert("keep".to_string(), resolved("keep"));
    context.resolved_global_objects.insert("container".to_string(), ResolvedObject {
        identifier: "container".to_string(),
        resolved_elements: vec![ResolvedObjectElement::SetRef { set_id: "outer".to_string() }],
        is_global: true,
    });
    context.resolved_sets.insert("inner".to_string(), ResolvedSetOperation {
        set_id: "inner".to_string(),
        operation: SetOperationType::Union,
        resolved_operands: vec![ResolvedSetOperand::ObjectRef("x".to_string()), ResolvedSetOperand::ObjectRef("keep".to_string())],
        resolved_filter: None,
    });
    context.resolved_sets.insert("outer".to_string(), ResolvedSetOperation {
        set_id: "outer".to_string(),
        operation: SetOperationType::Union,
        resolved_operands: vec![ResolvedSetOperand::ObjectRef("y".to_string()), ResolvedSetOperand::SetRef("inner".to_string())],
        resolved_filter: None,
    });
    let mut declaration = criterion("ctn", vec![ObjectRef::new("keep".to_string()), ObjectRef::new("container".to_string())], None);
    let expanded = expand_set_ref_in_declaration_helper(&mut declaration, &context.resolved_sets, &context.resolved_global_objects).unwrap();
    assert!(expanded);
    let ids: Vec<&str> = declaration.object_refs.iter().map(|r| r.object_id.as_str()).collect();
    assert_eq!(ids, vec!["keep", "y", "x"]);
}

#[test]
fn missing_set_is_reported_with_the_criterion() {
    let context = ResolutionContext::new();
    let mut declaration = criterion("my_ctn", vec![], Some(ObjectDeclaration {
        identifier: "local".to_string(),
        elements: vec![ObjectElement::SetRef { set_id: "nowhere".to_string() }],
        is_global: false,
    }));
    match expand_set_ref_in_declaration_helper(&mut declaration, &context.resolved_sets, &context.resolved_global_objects) {
        Err(ResolutionError::UndefinedSet { name, context }) => {
            assert_eq!(name, "nowhere");
            assert_eq!(context, "SET expansion in CTN 'my_ctn'");
        }
        other => panic!("unexpected {:?}", other),
    }
    assert!(declaration.local_object.is_some());
}

#[test]
fn nothing_to_expand_leaves_the_criterion() {
    let context = ResolutionContext::new();
    let mut declaration = criterion("ctn", vec![ObjectRef::new("a".to_string())], None);
    let expanded = expand_set_ref_in_declaration_helper(&mut declaration, &context.resolved_sets, &context.resolved_global_objects).unwrap();
    assert!(!expanded);
    assert_eq!(declaration.object_refs.len(), 1);
}

#[test]
fn context_expansion_refuses_cycles_and_expands_trees() {
    let mut context = ResolutionContext::new();
    context.resolved_sets.insert("s".to_string(), ResolvedSetOperation {
        set_id: "s".to_string(),
        operation: SetOperationType::Union,
        resolved_operands: vec![ResolvedSetOperand::ObjectRef("o".to_string())],
        resolved_filter: None,
    });
    context.criteria_root.trees.push(CriteriaTree::Criterion {
        declaration: criterion("ctn", vec![], Some(ObjectDeclaration {
            identifier: "local".to_string(),
            elements: vec![ObjectElement::SetRef { set_id: "s".to_string() }],
            is_global: false,
        })),
        node_id: 0,
    });
    expand_sets_in_resolution_context(&mut context).unwrap();
    match &context.criteria_root.trees[0] {
        CriteriaTree::Criterion { declaration, .. } => {
            assert!(declaration.local_object.is_none());
            assert_eq!(declaration.object_refs.len(), 1);
            assert_eq!(declaration.object_refs[0].object_id, "o");
        }
        _ => panic!("expected a criterion"),
    }
}
