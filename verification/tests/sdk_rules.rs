use esp_scanner_base::types::common::{DataType, Operation};

#[test]
fn string_operations_in_order() {
    let ops = DataType::String.sdk_valid_operations();
    assert_eq!(
        ops,
        vec![
            Operation::Equals,
            Operation::NotEqual,
            Operation::Contains,
            Operation::NotContains,
            Operation::StartsWith,
            Operation::EndsWith,
            Operation::PatternMatch,
        ]
    );
}

#[test]
fn ordered_types_allow_comparisons() {
    for t in [DataType::Int, DataType::Float, DataType::Version, DataType::EvrString] {
        let ops = t.sdk_valid_operations();
        assert_eq!(ops.len(), 6);
        assert!(t.sdk_supports_operation(&Operation::GreaterThanOrEqual));
        assert!(!t.sdk_supports_operation(&Operation::Contains));
    }
}

#[test]
fn equality_only_types() {
    for t in [DataType::Boolean, DataType::Binary, DataType::RecordData] {
        assert_eq!(t.sdk_valid_operations(), vec![Operation::Equals, Operation::NotEqual]);
        assert!(t.sdk_supports_operation(&Operation::NotEqual));
        assert!(!t.sdk_supports_operation(&Operation::LessThan));
    }
}

#[test]
fn string_does_not_order() {
    assert!(DataType::String.sdk_supports_operation(&Operation::PatternMatch));
    assert!(!DataType::String.sdk_supports_operation(&Operation::GreaterThan));
}
