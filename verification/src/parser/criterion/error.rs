//! Errors raised while parsing criteria.

use vstd::prelude::*;
use crate::strings::{to_owned_string, join_strings, join_sep, usize_to_string, decimal};

verus! {

/// Errors raised while parsing a criterion (CTN block).
#[allow(inconsistent_fields)]
#[derive(Debug, Clone)]
pub enum CriterionParsingError {
    /// Failed to parse criterion declaration from JSON
    CriterionDeclarationParsingFailed { ctn_type: String, cause: String },
    /// Failed to parse criteria structure from JSON
    CriteriaStructureParsingFailed { criteria_index: usize, cause: String },
    /// Test specification parsing failed
    TestSpecificationParsingFailed { ctn_type: String, cause: String },
    /// Invalid existence check value
    InvalidExistenceCheck { ctn_type: String, existence_check: String, valid_checks: Vec<String> },
    /// Invalid item check value
    InvalidItemCheck { ctn_type: String, item_check: String, valid_checks: Vec<String> },
    /// Invalid state join operator
    InvalidStateJoinOperator { ctn_type: String, state_operator: String, valid_operators: Vec<String> },
    /// CTN content ordering violation
    CtnContentOrderingViolation { ctn_type: String, expected_order: String, violation_description: String },
    /// Multiple local objects in single CTN
    MultipleCtnObjects { ctn_type: String, first_object_id: String, second_object_id: String },
    /// Empty CTN definition (no content)
    EmptyCtnDefinition { ctn_type: String },
    /// CTN type identifier validation failed
    InvalidCtnTypeIdentifier { ctn_type: String, cause: String },
    /// Missing required field in CTN definition
    MissingRequiredField { ctn_type: String, missing_field: String },
    /// State reference parsing failed in CTN
    StateReferenceParsingFailed { ctn_type: String, reference_index: usize, cause: String },
    /// Object reference parsing failed in CTN
    ObjectReferenceParsingFailed { ctn_type: String, reference_index: usize, cause: String },
    /// Local state parsing failed in CTN
    LocalStateParsingFailed { ctn_type: String, state_index: usize, state_id: String, cause: String },
    /// Local object parsing failed in CTN
    LocalObjectParsingFailed { ctn_type: String, object_id: String, cause: String },
    /// Criteria nesting depth limit exceeded
    CriteriaNestingDepthExceeded { current_depth: usize, max_depth: usize },
    /// Invalid logical operator for criteria
    InvalidLogicalOperator { criteria_index: usize, logical_op: String, valid_operators: Vec<String> },
    /// Criteria flattening failed
    CriteriaFlatteningFailed { criteria_index: usize, cause: String },
    /// CTN node ID assignment failed
    CtnNodeIdAssignmentFailed { ctn_type: String, cause: String },
    /// Test specification validation failed
    TestSpecificationValidationFailed { ctn_type: String, test_inconsistency: String },
    /// CTN element count limit exceeded
    CtnElementCountLimitExceeded { ctn_type: String, element_count: usize, max_elements: usize },
    /// State reference validation failed
    StateReferenceValidationFailed { ctn_type: String, state_id: String, validation_error: String },
    /// Object reference validation failed
    ObjectReferenceValidationFailed { ctn_type: String, object_id: String, validation_error: String },
    /// Local symbol scope conflict
    LocalSymbolScopeConflict { ctn_type: String, symbol_id: String, conflict_type: String },
    /// CTN content structure validation failed
    CtnContentStructureValidationFailed { ctn_type: String, expected_structure: String, actual_structure: String },
    /// Criterion dependency resolution failed
    CriterionDependencyResolutionFailed { ctn_type: String, dependency_chain: Vec<String>, resolution_error: String },
    /// Test and state count mismatch
    TestStateCountMismatch { ctn_type: String, test_spec: String, state_count: usize, expected_state_count: Option<usize> },
}

/// The message that describes an error.
pub open spec fn criterion_parsing_error_message(e: CriterionParsingError) -> Seq<char> {
    match e {
        CriterionParsingError::CriterionDeclarationParsingFailed { ctn_type, cause } => "Failed to parse criterion '"@ + ctn_type@ + "': "@ + cause@,
        CriterionParsingError::CriteriaStructureParsingFailed { criteria_index, cause } => "Failed to parse criteria structure at index "@ + decimal(criteria_index as nat) + ": "@ + cause@,
        CriterionParsingError::TestSpecificationParsingFailed { ctn_type, cause } => "Failed to parse test specification for CTN '"@ + ctn_type@ + "': "@ + cause@,
        CriterionParsingError::InvalidExistenceCheck { ctn_type, existence_check, valid_checks } => "Invalid existence check '"@ + existence_check@ + "' for CTN '"@ + ctn_type@ + "'. Valid checks: ["@ + join_sep(valid_checks@.map_values(|x: String| x@), ", "@) + "]"@,
        CriterionParsingError::InvalidItemCheck { ctn_type, item_check, valid_checks } => "Invalid item check '"@ + item_check@ + "' for CTN '"@ + ctn_type@ + "'. Valid checks: ["@ + join_sep(valid_checks@.map_values(|x: String| x@), ", "@) + "]"@,
        CriterionParsingError::InvalidStateJoinOperator { ctn_type, state_operator, valid_operators } => "Invalid state join operator '"@ + state_operator@ + "' for CTN '"@ + ctn_type@ + "'. Valid operators: ["@ + join_sep(valid_operators@.map_values(|x: String| x@), ", "@) + "]"@,
        CriterionParsingError::CtnContentOrderingViolation { ctn_type, expected_order, violation_description } => "CTN content ordering violation in '"@ + ctn_type@ + "'. Expected order: "@ + expected_order@ + ". Violation: "@ + violation_description@,
        CriterionParsingError::MultipleCtnObjects { ctn_type, first_object_id, second_object_id } => "CTN '"@ + ctn_type@ + "' has multiple objects: '"@ + first_object_id@ + "' and '"@ + second_object_id@ + "' (max 1 allowed per EBNF)"@,
        CriterionParsingError::EmptyCtnDefinition { ctn_type } => "CTN '"@ + ctn_type@ + "' has no content (empty CTNs not allowed)"@,
        CriterionParsingError::InvalidCtnTypeIdentifier { ctn_type, cause } => "Invalid CTN type identifier '"@ + ctn_type@ + "': "@ + cause@,
        CriterionParsingError::MissingRequiredField { ctn_type, missing_field } => "CTN '"@ + ctn_type@ + "' missing required field '"@ + missing_field@ + "'"@,
        CriterionParsingError::StateReferenceParsingFailed { ctn_type, reference_index, cause } => "Failed to parse state reference "@ + decimal(reference_index as nat) + " in CTN '"@ + ctn_type@ + "': "@ + cause@,
        CriterionParsingError::ObjectReferenceParsingFailed { ctn_type, reference_index, cause } => "Failed to parse object reference "@ + decimal(reference_index as nat) + " in CTN '"@ + ctn_type@ + "': "@ + cause@,
        CriterionParsingError::LocalStateParsingFailed { ctn_type, state_index, state_id, cause } => "Failed to parse local state '"@ + state_id@ + "' (index "@ + decimal(state_index as nat) + ") in CTN '"@ + ctn_type@ + "': "@ + cause@,
        CriterionParsingError::LocalObjectParsingFailed { ctn_type, object_id, cause } => "Failed to parse local object '"@ + object_id@ + "' in CTN '"@ + ctn_type@ + "': "@ + cause@,
        CriterionParsingError::CriteriaNestingDepthExceeded { current_depth, max_depth } => "Criteria nesting depth exceeded: "@ + decimal(current_depth as nat) + " > "@ + decimal(max_depth as nat) + " (max allowed)"@,
        CriterionParsingError::InvalidLogicalOperator { criteria_index, logical_op, valid_operators } => "Invalid logical operator '"@ + logical_op@ + "' at criteria index "@ + decimal(criteria_index as nat) + ". Valid operators: ["@ + join_sep(valid_operators@.map_values(|x: String| x@), ", "@) + "]"@,
        CriterionParsingError::CriteriaFlatteningFailed { criteria_index, cause } => "Failed to flatten criteria at index "@ + decimal(criteria_index as nat) + ": "@ + cause@,
        CriterionParsingError::CtnNodeIdAssignmentFailed { ctn_type, cause } => "Failed to assign CTN node ID to '"@ + ctn_type@ + "': "@ + cause@,
        CriterionParsingError::TestSpecificationValidationFailed { ctn_type, test_inconsistency } => "Test specification validation failed for CTN '"@ + ctn_type@ + "': "@ + test_inconsistency@,
        CriterionParsingError::CtnElementCountLimitExceeded { ctn_type, element_count, max_elements } => "CTN '"@ + ctn_type@ + "' element count "@ + decimal(element_count as nat) + " exceeds maximum "@ + decimal(max_elements as nat) + " allowed"@,
        CriterionParsingError::StateReferenceValidationFailed { ctn_type, state_id, validation_error } => "State reference validation failed for '"@ + state_id@ + "' in CTN '"@ + ctn_type@ + "': "@ + validation_error@,
        CriterionParsingError::ObjectReferenceValidationFailed { ctn_type, object_id, validation_error } => "Object reference validation failed for '"@ + object_id@ + "' in CTN '"@ + ctn_type@ + "': "@ + validation_error@,
        CriterionParsingError::LocalSymbolScopeConflict { ctn_type, symbol_id, conflict_type } => "Local symbol scope conflict for '"@ + symbol_id@ + "' in CTN '"@ + ctn_type@ + "': "@ + conflict_type@,
        CriterionParsingError::CtnContentStructureValidationFailed { ctn_type, expected_structure, actual_structure } => "CTN content structure validation failed for '"@ + ctn_type@ + "'. Expected: "@ + expected_structure@ + ", Found: "@ + actual_structure@,
        CriterionParsingError::CriterionDependencyResolutionFailed { ctn_type, dependency_chain, resolution_error } => "Criterion dependency resolution failed for '"@ + ctn_type@ + "' ["@ + join_sep(dependency_chain@.map_values(|x: String| x@), " -> "@) + "]: "@ + resolution_error@,
        CriterionParsingError::TestStateCountMismatch { ctn_type, test_spec, state_count, expected_state_count } => match expected_state_count { Some(expected) => "Test state count mismatch for CTN '"@ + ctn_type@ + "'. Test '"@ + test_spec@ + "' expects "@ + decimal(expected as nat) + " states but found "@ + decimal(state_count as nat), None => "Test state count validation failed for CTN '"@ + ctn_type@ + "'. Test '"@ + test_spec@ + "' incompatible with "@ + decimal(state_count as nat) + " states"@ },
    }
}

impl CriterionParsingError {
    /// Create criterion declaration parsing error
    pub fn criterion_declaration_parsing_failed(ctn_type: &str, cause: &str) -> (res: CriterionParsingError)
        ensures
            res matches CriterionParsingError::CriterionDeclarationParsingFailed { ctn_type: b_ctn_type, cause: b_cause }
                && b_ctn_type@ == ctn_type@
                && b_cause@ == cause@,
    {
        CriterionParsingError::CriterionDeclarationParsingFailed { ctn_type: String::from_str(ctn_type), cause: String::from_str(cause) }
    }

    /// Create criteria structure parsing error
    pub fn criteria_structure_parsing_failed(criteria_index: usize, cause: &str) -> (res: CriterionParsingError)
        ensures
            res matches CriterionParsingError::CriteriaStructureParsingFailed { criteria_index: b_criteria_index, cause: b_cause }
                && b_criteria_index == criteria_index
                && b_cause@ == cause@,
    {
        CriterionParsingError::CriteriaStructureParsingFailed { criteria_index: criteria_index, cause: String::from_str(cause) }
    }

    /// Create test specification parsing error
    pub fn test_specification_parsing_failed(ctn_type: &str, cause: &str) -> (res: CriterionParsingError)
        ensures
            res matches CriterionParsingError::TestSpecificationParsingFailed { ctn_type: b_ctn_type, cause: b_cause }
                && b_ctn_type@ == ctn_type@
                && b_cause@ == cause@,
    {
        CriterionParsingError::TestSpecificationParsingFailed { ctn_type: String::from_str(ctn_type), cause: String::from_str(cause) }
    }

    /// Create invalid existence check error
    pub fn invalid_existence_check(ctn_type: &str, existence_check: &str) -> (res: CriterionParsingError)
        ensures
            res matches CriterionParsingError::InvalidExistenceCheck { ctn_type: b_ctn_type, existence_check: b_existence_check, valid_checks: b_valid_checks }
                && b_ctn_type@ == ctn_type@
                && b_existence_check@ == existence_check@
                && b_valid_checks@.map_values(|x: String| x@) == seq!["any"@, "all"@, "none"@, "at_least_one"@, "only_one"@],
    {
        let mut valid_checks_v: Vec<String> = Vec::new();
        valid_checks_v.push(String::from_str("any"));
        valid_checks_v.push(String::from_str("all"));
        valid_checks_v.push(String::from_str("none"));
        valid_checks_v.push(String::from_str("at_least_one"));
        valid_checks_v.push(String::from_str("only_one"));
        proof {
            assert(valid_checks_v@.map_values(|x: String| x@) =~= seq!["any"@, "all"@, "none"@, "at_least_one"@, "only_one"@]);
        }
        CriterionParsingError::InvalidExistenceCheck { ctn_type: String::from_str(ctn_type), existence_check: String::from_str(existence_check), valid_checks: valid_checks_v }
    }

    /// Create invalid item check error
    pub fn invalid_item_check(ctn_type: &str, item_check: &str) -> (res: CriterionParsingError)
        ensures
            res matches CriterionParsingError::InvalidItemCheck { ctn_type: b_ctn_type, item_check: b_item_check, valid_checks: b_valid_checks }
                && b_ctn_type@ == ctn_type@
                && b_item_check@ == item_check@
                && b_valid_checks@.map_values(|x: String| x@) == seq!["all"@, "at_least_one"@, "only_one"@, "none_satisfy"@],
    {
        let mut valid_checks_v: Vec<String> = Vec::new();
        valid_checks_v.push(String::from_str("all"));
        valid_checks_v.push(String::from_str("at_least_one"));
        valid_checks_v.push(String::from_str("only_one"));
        valid_checks_v.push(String::from_str("none_satisfy"));
        proof {
            assert(valid_checks_v@.map_values(|x: String| x@) =~= seq!["all"@, "at_least_one"@, "only_one"@, "none_satisfy"@]);
        }
        CriterionParsingError::InvalidItemCheck { ctn_type: String::from_str(ctn_type), item_check: String::from_str(item_check), valid_checks: valid_checks_v }
    }

    /// Create CTN content ordering violation error
    pub fn ctn_content_ordering_violation(ctn_type: &str, expected_order: &str, violation_description: &str) -> (res: CriterionParsingError)
        ensures
            res matches CriterionParsingError::CtnContentOrderingViolation { ctn_type: b_ctn_type, expected_order: b_expected_order, violation_description: b_violation_description }
                && b_ctn_type@ == ctn_type@
                && b_expected_order@ == expected_order@
                && b_violation_description@ == violation_description@,
    {
        CriterionParsingError::CtnContentOrderingViolation { ctn_type: String::from_str(ctn_type), expected_order: String::from_str(expected_order), violation_description: String::from_str(violation_description) }
    }

    /// Create multiple CTN objects error
    pub fn multiple_ctn_objects(ctn_type: &str, first_object_id: &str, second_object_id: &str) -> (res: CriterionParsingError)
        ensures
            res matches CriterionParsingError::MultipleCtnObjects { ctn_type: b_ctn_type, first_object_id: b_first_object_id, second_object_id: b_second_object_id }
                && b_ctn_type@ == ctn_type@
                && b_first_object_id@ == first_object_id@
                && b_second_object_id@ == second_object_id@,
    {
        CriterionParsingError::MultipleCtnObjects { ctn_type: String::from_str(ctn_type), first_object_id: String::from_str(first_object_id), second_object_id: String::from_str(second_object_id) }
    }

    /// Create empty CTN definition error
    pub fn empty_ctn_definition(ctn_type: &str) -> (res: CriterionParsingError)
        ensures
            res matches CriterionParsingError::EmptyCtnDefinition { ctn_type: b_ctn_type }
                && b_ctn_type@ == ctn_type@,
    {
        CriterionParsingError::EmptyCtnDefinition { ctn_type: String::from_str(ctn_type) }
    }

    /// Create invalid CTN type identifier error
    pub fn invalid_ctn_type_identifier(ctn_type: &str, cause: &str) -> (res: CriterionParsingError)
        ensures
            res matches CriterionParsingError::InvalidCtnTypeIdentifier { ctn_type: b_ctn_type, cause: b_cause }
                && b_ctn_type@ == ctn_type@
                && b_cause@ == cause@,
    {
        CriterionParsingError::InvalidCtnTypeIdentifier { ctn_type: String::from_str(ctn_type), cause: String::from_str(cause) }
    }

    /// Create missing required field error
    pub fn missing_required_field(ctn_type: &str, missing_field: &str) -> (res: CriterionParsingError)
        ensures
            res matches CriterionParsingError::MissingRequiredField { ctn_type: b_ctn_type, missing_field: b_missing_field }
                && b_ctn_type@ == ctn_type@
                && b_missing_field@ == missing_field@,
    {
        CriterionParsingError::MissingRequiredField { ctn_type: String::from_str(ctn_type), missing_field: String::from_str(missing_field) }
    }

    /// Create local state parsing error
    pub fn local_state_parsing_failed(ctn_type: &str, state_index: usize, state_id: &str, cause: &str) -> (res: CriterionParsingError)
        ensures
            res matches CriterionParsingError::LocalStateParsingFailed { ctn_type: b_ctn_type, state_index: b_state_index, state_id: b_state_id, cause: b_cause }
                && b_ctn_type@ == ctn_type@
                && b_state_index == state_index
                && b_state_id@ == state_id@
                && b_cause@ == cause@,
    {
        CriterionParsingError::LocalStateParsingFailed { ctn_type: String::from_str(ctn_type), state_index: state_index, state_id: String::from_str(state_id), cause: String::from_str(cause) }
    }

    /// Create local object parsing error
    pub fn local_object_parsing_failed(ctn_type: &str, object_id: &str, cause: &str) -> (res: CriterionParsingError)
        ensures
            res matches CriterionParsingError::LocalObjectParsingFailed { ctn_type: b_ctn_type, object_id: b_object_id, cause: b_cause }
                && b_ctn_type@ == ctn_type@
                && b_object_id@ == object_id@
                && b_cause@ == cause@,
    {
        CriterionParsingError::LocalObjectParsingFailed { ctn_type: String::from_str(ctn_type), object_id: String::from_str(object_id), cause: String::from_str(cause) }
    }

    /// Create criteria nesting depth exceeded error
    pub fn criteria_nesting_depth_exceeded(current_depth: usize, max_depth: usize) -> (res: CriterionParsingError)
        ensures
            res matches CriterionParsingError::CriteriaNestingDepthExceeded { current_depth: b_current_depth, max_depth: b_max_depth }
                && b_current_depth == current_depth
                && b_max_depth == max_depth,
    {
        CriterionParsingError::CriteriaNestingDepthExceeded { current_depth: current_depth, max_depth: max_depth }
    }

    /// Create test state count mismatch error
    pub fn test_state_count_mismatch(ctn_type: &str, test_spec: &str, state_count: usize, expected_state_count: Option<usize>) -> (res: CriterionParsingError)
        ensures
            res matches CriterionParsingError::TestStateCountMismatch { ctn_type: b_ctn_type, test_spec: b_test_spec, state_count: b_state_count, expected_state_count: b_expected_state_count }
                && b_ctn_type@ == ctn_type@
                && b_test_spec@ == test_spec@
                && b_state_count == state_count
                && b_expected_state_count == expected_state_count,
    {
        CriterionParsingError::TestStateCountMismatch { ctn_type: String::from_str(ctn_type), test_spec: String::from_str(test_spec), state_count: state_count, expected_state_count: expected_state_count }
    }

    /// The message that describes this error.
    pub fn to_string(&self) -> (res: String)
        ensures
            res@ == criterion_parsing_error_message(*self),
    {
        match self {
            CriterionParsingError::CriterionDeclarationParsingFailed { ctn_type, cause } => {
                let mut s = String::from_str("Failed to parse criterion '");
                s.append(ctn_type.as_str());
                s.append("': ");
                s.append(cause.as_str());
                s
            },
            CriterionParsingError::CriteriaStructureParsingFailed { criteria_index, cause } => {
                let mut s = String::from_str("Failed to parse criteria structure at index ");
                s.append(usize_to_string(*criteria_index).as_str());
                s.append(": ");
                s.append(cause.as_str());
                s
            },
            CriterionParsingError::TestSpecificationParsingFailed { ctn_type, cause } => {
                let mut s = String::from_str("Failed to parse test specification for CTN '");
                s.append(ctn_type.as_str());
                s.append("': ");
                s.append(cause.as_str());
                s
            },
            CriterionParsingError::InvalidExistenceCheck { ctn_type, existence_check, valid_checks } => {
                let mut s = String::from_str("Invalid existence check '");
                s.append(existence_check.as_str());
                s.append("' for CTN '");
                s.append(ctn_type.as_str());
                s.append("'. Valid checks: [");
                s.append(join_strings(valid_checks, ", ").as_str());
                s.append("]");
                s
            },
            CriterionParsingError::InvalidItemCheck { ctn_type, item_check, valid_checks } => {
                let mut s = String::from_str("Invalid item check '");
                s.append(item_check.as_str());
                s.append("' for CTN '");
                s.append(ctn_type.as_str());
                s.append("'. Valid checks: [");
                s.append(join_strings(valid_checks, ", ").as_str());
                s.append("]");
                s
            },
            CriterionParsingError::InvalidStateJoinOperator { ctn_type, state_operator, valid_operators } => {
                let mut s = String::from_str("Invalid state join operator '");
                s.append(state_operator.as_str());
                s.append("' for CTN '");
                s.append(ctn_type.as_str());
                s.append("'. Valid operators: [");
                s.append(join_strings(valid_operators, ", ").as_str());
                s.append("]");
                s
            },
            CriterionParsingError::CtnContentOrderingViolation { ctn_type, expected_order, violation_description } => {
                let mut s = String::from_str("CTN content ordering violation in '");
                s.append(ctn_type.as_str());
                s.append("'. Expected order: ");
                s.append(expected_order.as_str());
                s.append(". Violation: ");
                s.append(violation_description.as_str());
                s
            },
            CriterionParsingError::MultipleCtnObjects { ctn_type, first_object_id, second_object_id } => {
                let mut s = String::from_str("CTN '");
                s.append(ctn_type.as_str());
                s.append("' has multiple objects: '");
                s.append(first_object_id.as_str());
                s.append("' and '");
                s.append(second_object_id.as_str());
                s.append("' (max 1 allowed per EBNF)");
                s
            },
            CriterionParsingError::EmptyCtnDefinition { ctn_type } => {
                let mut s = String::from_str("CTN '");
                s.append(ctn_type.as_str());
                s.append("' has no content (empty CTNs not allowed)");
                s
            },
            CriterionParsingError::InvalidCtnTypeIdentifier { ctn_type, cause } => {
                let mut s = String::from_str("Invalid CTN type identifier '");
                s.append(ctn_type.as_str());
                s.append("': ");
                s.append(cause.as_str());
                s
            },
            CriterionParsingError::MissingRequiredField { ctn_type, missing_field } => {
                let mut s = String::from_str("CTN '");
                s.append(ctn_type.as_str());
                s.append("' missing required field '");
                s.append(missing_field.as_str());
                s.append("'");
                s
            },
            CriterionParsingError::StateReferenceParsingFailed { ctn_type, reference_index, cause } => {
                let mut s = String::from_str("Failed to parse state reference ");
                s.append(usize_to_string(*reference_index).as_str());
                s.append(" in CTN '");
                s.append(ctn_type.as_str());
                s.append("': ");
                s.append(cause.as_str());
                s
            },
            CriterionParsingError::ObjectReferenceParsingFailed { ctn_type, reference_index, cause } => {
                let mut s = String::from_str("Failed to parse object reference ");
                s.append(usize_to_string(*reference_index).as_str());
                s.append(" in CTN '");
                s.append(ctn_type.as_str());
                s.append("': ");
                s.append(cause.as_str());
                s
            },
            CriterionParsingError::LocalStateParsingFailed { ctn_type, state_index, state_id, cause } => {
                let mut s = String::from_str("Failed to parse local state '");
                s.append(state_id.as_str());
                s.append("' (index ");
                s.append(usize_to_string(*state_index).as_str());
                s.append(") in CTN '");
                s.append(ctn_type.as_str());
                s.append("': ");
                s.append(cause.as_str());
                s
            },
            CriterionParsingError::LocalObjectParsingFailed { ctn_type, object_id, cause } => {
                let mut s = String::from_str("Failed to parse local object '");
                s.append(object_id.as_str());
                s.append("' in CTN '");
                s.append(ctn_type.as_str());
                s.append("': ");
                s.append(cause.as_str());
                s
            },
            CriterionParsingError::CriteriaNestingDepthExceeded { current_depth, max_depth } => {
                let mut s = String::from_str("Criteria nesting depth exceeded: ");
                s.append(usize_to_string(*current_depth).as_str());
                s.append(" > ");
                s.append(usize_to_string(*max_depth).as_str());
                s.append(" (max allowed)");
                s
            },
            CriterionParsingError::InvalidLogicalOperator { criteria_index, logical_op, valid_operators } => {
                let mut s = String::from_str("Invalid logical operator '");
                s.append(logical_op.as_str());
                s.append("' at criteria index ");
                s.append(usize_to_string(*criteria_index).as_str());
                s.append(". Valid operators: [");
                s.append(join_strings(valid_operators, ", ").as_str());
                s.append("]");
                s
            },
            CriterionParsingError::CriteriaFlatteningFailed { criteria_index, cause } => {
                let mut s = String::from_str("Failed to flatten criteria at index ");
                s.append(usize_to_string(*criteria_index).as_str());
                s.append(": ");
                s.append(cause.as_str());
                s
            },
            CriterionParsingError::CtnNodeIdAssignmentFailed { ctn_type, cause } => {
                let mut s = String::from_str("Failed to assign CTN node ID to '");
                s.append(ctn_type.as_str());
                s.append("': ");
                s.append(cause.as_str());
                s
            },
            CriterionParsingError::TestSpecificationValidationFailed { ctn_type, test_inconsistency } => {
                let mut s = String::from_str("Test specification validation failed for CTN '");
                s.append(ctn_type.as_str());
                s.append("': ");
                s.append(test_inconsistency.as_str());
                s
            },
            CriterionParsingError::CtnElementCountLimitExceeded { ctn_type, element_count, max_elements } => {
                let mut s = String::from_str("CTN '");
                s.append(ctn_type.as_str());
                s.append("' element count ");
                s.append(usize_to_string(*element_count).as_str());
                s.append(" exceeds maximum ");
                s.append(usize_to_string(*max_elements).as_str());
                s.append(" allowed");
                s
            },
            CriterionParsingError::StateReferenceValidationFailed { ctn_type, state_id, validation_error } => {
                let mut s = String::from_str("State reference validation failed for '");
                s.append(state_id.as_str());
                s.append("' in CTN '");
                s.append(ctn_type.as_str());
                s.append("': ");
                s.append(validation_error.as_str());
                s
            },
            CriterionParsingError::ObjectReferenceValidationFailed { ctn_type, object_id, validation_error } => {
                let mut s = String::from_str("Object reference validation failed for '");
                s.append(object_id.as_str());
                s.append("' in CTN '");
                s.append(ctn_type.as_str());
                s.append("': ");
                s.append(validation_error.as_str());
                s
            },
            CriterionParsingError::LocalSymbolScopeConflict { ctn_type, symbol_id, conflict_type } => {
                let mut s = String::from_str("Local symbol scope conflict for '");
                s.append(symbol_id.as_str());
                s.append("' in CTN '");
                s.append(ctn_type.as_str());
                s.append("': ");
                s.append(conflict_type.as_str());
                s
            },
            CriterionParsingError::CtnContentStructureValidationFailed { ctn_type, expected_structure, actual_structure } => {
                let mut s = String::from_str("CTN content structure validation failed for '");
                s.append(ctn_type.as_str());
                s.append("'. Expected: ");
                s.append(expected_structure.as_str());
                s.append(", Found: ");
                s.append(actual_structure.as_str());
                s
            },
            CriterionParsingError::CriterionDependencyResolutionFailed { ctn_type, dependency_chain, resolution_error } => {
                let mut s = String::from_str("Criterion dependency resolution failed for '");
                s.append(ctn_type.as_str());
                s.append("' [");
                s.append(join_strings(dependency_chain, " -> ").as_str());
                s.append("]: ");
                s.append(resolution_error.as_str());
                s
            },
            CriterionParsingError::TestStateCountMismatch { ctn_type, test_spec, state_count, expected_state_count } => {
                match expected_state_count {
                    Some(expected) => {
                        let mut s = String::from_str("Test state count mismatch for CTN '");
                        s.append(ctn_type.as_str());
                        s.append("'. Test '");
                        s.append(test_spec.as_str());
                        s.append("' expects ");
                        s.append(usize_to_string(*expected).as_str());
                        s.append(" states but found ");
                        s.append(usize_to_string(*state_count).as_str());
                        s
                    },
                    None => {
                        let mut s = String::from_str("Test state count validation failed for CTN '");
                        s.append(ctn_type.as_str());
                        s.append("'. Test '");
                        s.append(test_spec.as_str());
                        s.append("' incompatible with ");
                        s.append(usize_to_string(*state_count).as_str());
                        s.append(" states");
                        s
                    },
                }
            },
        }
    }
}

} // verus!
