//! Errors raised while parsing SET operations.

use vstd::prelude::*;
use crate::strings::{to_owned_string, join_strings, join_sep, usize_to_string, decimal};
use crate::types::set::{SetOperationType, set_operation_debug};

verus! {

/// Errors raised while parsing a SET operation.
#[allow(inconsistent_fields)]
#[derive(Debug, Clone)]
pub enum SetParsingError {
    /// Failed to parse set operation from JSON
    SetOperationParsingFailed { set_id: String, cause: String },
    /// Invalid set operation type
    InvalidSetOperationType { set_id: String, operation_type: String, valid_operations: Vec<String> },
    /// Set operand parsing failed
    SetOperandParsingFailed { set_id: String, operand_index: usize, cause: String },
    /// Invalid operand count for operation type
    InvalidOperandCount { set_id: String, operation_type: SetOperationType, operand_count: usize, min_required: usize, max_allowed: Option<usize> },
    /// Unknown set operand type
    UnknownSetOperandType { set_id: String, operand_index: usize, operand_type: String, available_keys: Vec<String> },
    /// Set reference validation failed
    SetReferenceValidationFailed { set_id: String, referenced_set_id: String, cause: String },
    /// Object reference validation failed in set operand
    ObjectReferenceValidationFailed { set_id: String, object_id: String, cause: String },
    /// Inline object parsing failed in set operand
    InlineObjectParsingFailed { set_id: String, operand_index: usize, cause: String },
    /// Filter specification parsing failed for set
    SetFilterParsingFailed { set_id: String, cause: String },
    /// Set identifier validation failed
    InvalidSetIdentifier { set_id: String, cause: String },
    /// Empty set definition (no operands)
    EmptySetDefinition { set_id: String },
    /// Missing required field in set definition
    MissingRequiredField { set_id: String, missing_field: String },
    /// Set operation structure validation failed
    SetOperationStructureValidationFailed { set_id: String, expected_structure: String, actual_structure: String },
    /// Circular set reference detected
    CircularSetReference { set_id: String, reference_chain: Vec<String> },
    /// Set operand type mismatch
    SetOperandTypeMismatch { set_id: String, operand_index: usize, expected_types: Vec<String>, found_type: String },
    /// Filter action validation failed for set
    SetFilterActionValidationFailed { set_id: String, filter_action: String, cause: String },
    /// Filter state references validation failed for set
    SetFilterStateReferencesValidationFailed { set_id: String, state_references: Vec<String>, cause: String },
    /// Set union operand validation failed
    UnionOperandValidationFailed { set_id: String, operand_index: usize, operand_content: String },
    /// Set intersection operand validation failed
    IntersectionOperandValidationFailed { set_id: String, operand_index: usize, operand_content: String },
    /// Set complement operand validation failed
    ComplementOperandValidationFailed { set_id: String, operand_index: usize, operand_content: String },
    /// Set operation consistency validation failed
    SetOperationConsistencyValidationFailed { set_id: String, operation_type: SetOperationType, inconsistency_reason: String },
    /// Nested set depth limit exceeded
    NestedSetDepthLimitExceeded { set_id: String, depth: usize, max_depth: usize },
    /// Set operand reference resolution failed
    SetOperandReferenceResolutionFailed { set_id: String, operand_index: usize, reference_id: String, resolution_error: String },
}

/// The message that describes an error.
pub open spec fn set_parsing_error_message(e: SetParsingError) -> Seq<char> {
    match e {
        SetParsingError::SetOperationParsingFailed { set_id, cause } => "Failed to parse set operation '"@ + set_id@ + "': "@ + cause@,
        SetParsingError::InvalidSetOperationType { set_id, operation_type, valid_operations } => "Invalid set operation type '"@ + operation_type@ + "' for set '"@ + set_id@ + "'. Valid operations: ["@ + join_sep(valid_operations@.map_values(|x: String| x@), ", "@) + "]"@,
        SetParsingError::SetOperandParsingFailed { set_id, operand_index, cause } => "Failed to parse operand "@ + decimal(operand_index as nat) + " in set '"@ + set_id@ + "': "@ + cause@,
        SetParsingError::InvalidOperandCount { set_id, operation_type, operand_count, min_required, max_allowed } => match max_allowed { Some(max) => "Invalid operand count "@ + decimal(operand_count as nat) + " for "@ + set_operation_debug(operation_type) + " operation in set '"@ + set_id@ + "'. Required: "@ + decimal(min_required as nat) + "-"@ + decimal(max as nat), None => "Invalid operand count "@ + decimal(operand_count as nat) + " for "@ + set_operation_debug(operation_type) + " operation in set '"@ + set_id@ + "'. Minimum required: "@ + decimal(min_required as nat) },
        SetParsingError::UnknownSetOperandType { set_id, operand_index, operand_type, available_keys } => "Unknown operand type '"@ + operand_type@ + "' at index "@ + decimal(operand_index as nat) + " in set '"@ + set_id@ + "'. Available: ["@ + join_sep(available_keys@.map_values(|x: String| x@), ", "@) + "]"@,
        SetParsingError::SetReferenceValidationFailed { set_id, referenced_set_id, cause } => "Set reference validation failed for '"@ + referenced_set_id@ + "' in set '"@ + set_id@ + "': "@ + cause@,
        SetParsingError::ObjectReferenceValidationFailed { set_id, object_id, cause } => "Object reference validation failed for '"@ + object_id@ + "' in set '"@ + set_id@ + "': "@ + cause@,
        SetParsingError::InlineObjectParsingFailed { set_id, operand_index, cause } => "Failed to parse inline object at operand "@ + decimal(operand_index as nat) + " in set '"@ + set_id@ + "': "@ + cause@,
        SetParsingError::SetFilterParsingFailed { set_id, cause } => "Failed to parse filter for set '"@ + set_id@ + "': "@ + cause@,
        SetParsingError::InvalidSetIdentifier { set_id, cause } => "Invalid set identifier '"@ + set_id@ + "': "@ + cause@,
        SetParsingError::EmptySetDefinition { set_id } => "Set '"@ + set_id@ + "' has no operands (empty sets not allowed)"@,
        SetParsingError::MissingRequiredField { set_id, missing_field } => "Set '"@ + set_id@ + "' missing required field '"@ + missing_field@ + "'"@,
        SetParsingError::SetOperationStructureValidationFailed { set_id, expected_structure, actual_structure } => "Set operation structure validation failed for '"@ + set_id@ + "'. Expected: "@ + expected_structure@ + ", Found: "@ + actual_structure@,
        SetParsingError::CircularSetReference { set_id, reference_chain } => "Circular set reference detected for '"@ + set_id@ + "': "@ + join_sep(reference_chain@.map_values(|x: String| x@), " -> "@),
        SetParsingError::SetOperandTypeMismatch { set_id, operand_index, expected_types, found_type } => "Set operand type mismatch at index "@ + decimal(operand_index as nat) + " in set '"@ + set_id@ + "'. Expected: ["@ + join_sep(expected_types@.map_values(|x: String| x@), ", "@) + "], Found: "@ + found_type@,
        SetParsingError::SetFilterActionValidationFailed { set_id, filter_action, cause } => "Set filter action '"@ + filter_action@ + "' validation failed for set '"@ + set_id@ + "': "@ + cause@,
        SetParsingError::SetFilterStateReferencesValidationFailed { set_id, state_references, cause } => "Set filter state references ["@ + join_sep(state_references@.map_values(|x: String| x@), ", "@) + "] validation failed for set '"@ + set_id@ + "': "@ + cause@,
        SetParsingError::UnionOperandValidationFailed { set_id, operand_index, operand_content } => "Union operand validation failed at index "@ + decimal(operand_index as nat) + " in set '"@ + set_id@ + "': "@ + operand_content@,
        SetParsingError::IntersectionOperandValidationFailed { set_id, operand_index, operand_content } => "Intersection operand validation failed at index "@ + decimal(operand_index as nat) + " in set '"@ + set_id@ + "': "@ + operand_content@,
        SetParsingError::ComplementOperandValidationFailed { set_id, operand_index, operand_content } => "Complement operand validation failed at index "@ + decimal(operand_index as nat) + " in set '"@ + set_id@ + "': "@ + operand_content@,
        SetParsingError::SetOperationConsistencyValidationFailed { set_id, operation_type, inconsistency_reason } => "Set operation consistency validation failed for "@ + set_operation_debug(operation_type) + " operation in set '"@ + set_id@ + "': "@ + inconsistency_reason@,
        SetParsingError::NestedSetDepthLimitExceeded { set_id, depth, max_depth } => "Nested set depth limit exceeded for set '"@ + set_id@ + "': "@ + decimal(depth as nat) + " > "@ + decimal(max_depth as nat) + " (max allowed)"@,
        SetParsingError::SetOperandReferenceResolutionFailed { set_id, operand_index, reference_id, resolution_error } => "Set operand reference resolution failed for '"@ + reference_id@ + "' at index "@ + decimal(operand_index as nat) + " in set '"@ + set_id@ + "': "@ + resolution_error@,
    }
}

impl SetParsingError {
    /// Create set operation parsing error
    pub fn set_operation_parsing_failed(set_id: &str, cause: &str) -> (res: SetParsingError)
        ensures
            res matches SetParsingError::SetOperationParsingFailed { set_id: b_set_id, cause: b_cause }
                && b_set_id@ == set_id@
                && b_cause@ == cause@,
    {
        SetParsingError::SetOperationParsingFailed { set_id: String::from_str(set_id), cause: String::from_str(cause) }
    }

    /// Create invalid set operation type error
    pub fn invalid_set_operation_type(set_id: &str, operation_type: &str) -> (res: SetParsingError)
        ensures
            res matches SetParsingError::InvalidSetOperationType { set_id: b_set_id, operation_type: b_operation_type, valid_operations: b_valid_operations }
                && b_set_id@ == set_id@
                && b_operation_type@ == operation_type@
                && b_valid_operations@.map_values(|x: String| x@) == seq!["union"@, "intersection"@, "complement"@],
    {
        let mut valid_operations_v: Vec<String> = Vec::new();
        valid_operations_v.push(String::from_str("union"));
        valid_operations_v.push(String::from_str("intersection"));
        valid_operations_v.push(String::from_str("complement"));
        proof {
            assert(valid_operations_v@.map_values(|x: String| x@) =~= seq!["union"@, "intersection"@, "complement"@]);
        }
        SetParsingError::InvalidSetOperationType { set_id: String::from_str(set_id), operation_type: String::from_str(operation_type), valid_operations: valid_operations_v }
    }

    /// Create set operand parsing error
    pub fn set_operand_parsing_failed(set_id: &str, operand_index: usize, cause: &str) -> (res: SetParsingError)
        ensures
            res matches SetParsingError::SetOperandParsingFailed { set_id: b_set_id, operand_index: b_operand_index, cause: b_cause }
                && b_set_id@ == set_id@
                && b_operand_index == operand_index
                && b_cause@ == cause@,
    {
        SetParsingError::SetOperandParsingFailed { set_id: String::from_str(set_id), operand_index: operand_index, cause: String::from_str(cause) }
    }

    /// Create invalid operand count error
    pub fn invalid_operand_count(set_id: &str, operation_type: SetOperationType, operand_count: usize, min_required: usize, max_allowed: Option<usize>) -> (res: SetParsingError)
        ensures
            res matches SetParsingError::InvalidOperandCount { set_id: b_set_id, operation_type: b_operation_type, operand_count: b_operand_count, min_required: b_min_required, max_allowed: b_max_allowed }
                && b_set_id@ == set_id@
                && b_operation_type == operation_type
                && b_operand_count == operand_count
                && b_min_required == min_required
                && b_max_allowed == max_allowed,
    {
        SetParsingError::InvalidOperandCount { set_id: String::from_str(set_id), operation_type: operation_type, operand_count: operand_count, min_required: min_required, max_allowed: max_allowed }
    }

    /// Create unknown set operand type error
    pub fn unknown_set_operand_type(set_id: &str, operand_index: usize, operand_type: &str, available_keys: Vec<String>) -> (res: SetParsingError)
        ensures
            res matches SetParsingError::UnknownSetOperandType { set_id: b_set_id, operand_index: b_operand_index, operand_type: b_operand_type, available_keys: b_available_keys }
                && b_set_id@ == set_id@
                && b_operand_index == operand_index
                && b_operand_type@ == operand_type@
                && b_available_keys == available_keys,
    {
        SetParsingError::UnknownSetOperandType { set_id: String::from_str(set_id), operand_index: operand_index, operand_type: String::from_str(operand_type), available_keys: available_keys }
    }

    /// Create empty set definition error
    pub fn empty_set_definition(set_id: &str) -> (res: SetParsingError)
        ensures
            res matches SetParsingError::EmptySetDefinition { set_id: b_set_id }
                && b_set_id@ == set_id@,
    {
        SetParsingError::EmptySetDefinition { set_id: String::from_str(set_id) }
    }

    /// Create missing required field error
    pub fn missing_required_field(set_id: &str, missing_field: &str) -> (res: SetParsingError)
        ensures
            res matches SetParsingError::MissingRequiredField { set_id: b_set_id, missing_field: b_missing_field }
                && b_set_id@ == set_id@
                && b_missing_field@ == missing_field@,
    {
        SetParsingError::MissingRequiredField { set_id: String::from_str(set_id), missing_field: String::from_str(missing_field) }
    }

    /// Create invalid set identifier error
    pub fn invalid_set_identifier(set_id: &str, cause: &str) -> (res: SetParsingError)
        ensures
            res matches SetParsingError::InvalidSetIdentifier { set_id: b_set_id, cause: b_cause }
                && b_set_id@ == set_id@
                && b_cause@ == cause@,
    {
        SetParsingError::InvalidSetIdentifier { set_id: String::from_str(set_id), cause: String::from_str(cause) }
    }

    /// Create circular set reference error
    pub fn circular_set_reference(set_id: &str, reference_chain: Vec<String>) -> (res: SetParsingError)
        ensures
            res matches SetParsingError::CircularSetReference { set_id: b_set_id, reference_chain: b_reference_chain }
                && b_set_id@ == set_id@
                && b_reference_chain == reference_chain,
    {
        SetParsingError::CircularSetReference { set_id: String::from_str(set_id), reference_chain: reference_chain }
    }

    /// Create set filter parsing error
    pub fn set_filter_parsing_failed(set_id: &str, cause: &str) -> (res: SetParsingError)
        ensures
            res matches SetParsingError::SetFilterParsingFailed { set_id: b_set_id, cause: b_cause }
                && b_set_id@ == set_id@
                && b_cause@ == cause@,
    {
        SetParsingError::SetFilterParsingFailed { set_id: String::from_str(set_id), cause: String::from_str(cause) }
    }

    /// Create inline object parsing error
    pub fn inline_object_parsing_failed(set_id: &str, operand_index: usize, cause: &str) -> (res: SetParsingError)
        ensures
            res matches SetParsingError::InlineObjectParsingFailed { set_id: b_set_id, operand_index: b_operand_index, cause: b_cause }
                && b_set_id@ == set_id@
                && b_operand_index == operand_index
                && b_cause@ == cause@,
    {
        SetParsingError::InlineObjectParsingFailed { set_id: String::from_str(set_id), operand_index: operand_index, cause: String::from_str(cause) }
    }

    /// The message that describes this error.
    pub fn to_string(&self) -> (res: String)
        ensures
            res@ == set_parsing_error_message(*self),
    {
        match self {
            SetParsingError::SetOperationParsingFailed { set_id, cause } => {
                let mut s = String::from_str("Failed to parse set operation '");
                s.append(set_id.as_str());
                s.append("': ");
                s.append(cause.as_str());
                s
            },
            SetParsingError::InvalidSetOperationType { set_id, operation_type, valid_operations } => {
                let mut s = String::from_str("Invalid set operation type '");
                s.append(operation_type.as_str());
                s.append("' for set '");
                s.append(set_id.as_str());
                s.append("'. Valid operations: [");
                s.append(join_strings(valid_operations, ", ").as_str());
                s.append("]");
                s
            },
            SetParsingError::SetOperandParsingFailed { set_id, operand_index, cause } => {
                let mut s = String::from_str("Failed to parse operand ");
                s.append(usize_to_string(*operand_index).as_str());
                s.append(" in set '");
                s.append(set_id.as_str());
                s.append("': ");
                s.append(cause.as_str());
                s
            },
            SetParsingError::InvalidOperandCount { set_id, operation_type, operand_count, min_required, max_allowed } => {
                match max_allowed {
                    Some(max) => {
                        let mut s = String::from_str("Invalid operand count ");
                        s.append(usize_to_string(*operand_count).as_str());
                        s.append(" for ");
                        s.append(operation_type.debug_name());
                        s.append(" operation in set '");
                        s.append(set_id.as_str());
                        s.append("'. Required: ");
                        s.append(usize_to_string(*min_required).as_str());
                        s.append("-");
                        s.append(usize_to_string(*max).as_str());
                        s
                    },
                    None => {
                        let mut s = String::from_str("Invalid operand count ");
                        s.append(usize_to_string(*operand_count).as_str());
                        s.append(" for ");
                        s.append(operation_type.debug_name());
                        s.append(" operation in set '");
                        s.append(set_id.as_str());
                        s.append("'. Minimum required: ");
                        s.append(usize_to_string(*min_required).as_str());
                        s
                    },
                }
            },
            SetParsingError::UnknownSetOperandType { set_id, operand_index, operand_type, available_keys } => {
                let mut s = String::from_str("Unknown operand type '");
                s.append(operand_type.as_str());
                s.append("' at index ");
                s.append(usize_to_string(*operand_index).as_str());
                s.append(" in set '");
                s.append(set_id.as_str());
                s.append("'. Available: [");
                s.append(join_strings(available_keys, ", ").as_str());
                s.append("]");
                s
            },
            SetParsingError::SetReferenceValidationFailed { set_id, referenced_set_id, cause } => {
                let mut s = String::from_str("Set reference validation failed for '");
                s.append(referenced_set_id.as_str());
                s.append("' in set '");
                s.append(set_id.as_str());
                s.append("': ");
                s.append(cause.as_str());
                s
            },
            SetParsingError::ObjectReferenceValidationFailed { set_id, object_id, cause } => {
                let mut s = String::from_str("Object reference validation failed for '");
                s.append(object_id.as_str());
                s.append("' in set '");
                s.append(set_id.as_str());
                s.append("': ");
                s.append(cause.as_str());
                s
            },
            SetParsingError::InlineObjectParsingFailed { set_id, operand_index, cause } => {
                let mut s = String::from_str("Failed to parse inline object at operand ");
                s.append(usize_to_string(*operand_index).as_str());
                s.append(" in set '");
                s.append(set_id.as_str());
                s.append("': ");
                s.append(cause.as_str());
                s
            },
            SetParsingError::SetFilterParsingFailed { set_id, cause } => {
                let mut s = String::from_str("Failed to parse filter for set '");
                s.append(set_id.as_str());
                s.append("': ");
                s.append(cause.as_str());
                s
            },
            SetParsingError::InvalidSetIdentifier { set_id, cause } => {
                let mut s = String::from_str("Invalid set identifier '");
                s.append(set_id.as_str());
                s.append("': ");
                s.append(cause.as_str());
                s
            },
            SetParsingError::EmptySetDefinition { set_id } => {
                let mut s = String::from_str("Set '");
                s.append(set_id.as_str());
                s.append("' has no operands (empty sets not allowed)");
                s
            },
            SetParsingError::MissingRequiredField { set_id, missing_field } => {
                let mut s = String::from_str("Set '");
                s.append(set_id.as_str());
                s.append("' missing required field '");
                s.append(missing_field.as_str());
                s.append("'");
                s
            },
            SetParsingError::SetOperationStructureValidationFailed { set_id, expected_structure, actual_structure } => {
                let mut s = String::from_str("Set operation structure validation failed for '");
                s.append(set_id.as_str());
                s.append("'. Expected: ");
                s.append(expected_structure.as_str());
                s.append(", Found: ");
                s.append(actual_structure.as_str());
                s
            },
            SetParsingError::CircularSetReference { set_id, reference_chain } => {
                let mut s = String::from_str("Circular set reference detected for '");
                s.append(set_id.as_str());
                s.append("': ");
                s.append(join_strings(reference_chain, " -> ").as_str());
                s
            },
            SetParsingError::SetOperandTypeMismatch { set_id, operand_index, expected_types, found_type } => {
                let mut s = String::from_str("Set operand type mismatch at index ");
                s.append(usize_to_string(*operand_index).as_str());
                s.append(" in set '");
                s.append(set_id.as_str());
                s.append("'. Expected: [");
                s.append(join_strings(expected_types, ", ").as_str());
                s.append("], Found: ");
                s.append(found_type.as_str());
                s
            },
            SetParsingError::SetFilterActionValidationFailed { set_id, filter_action, cause } => {
                let mut s = String::from_str("Set filter action '");
                s.append(filter_action.as_str());
                s.append("' validation failed for set '");
                s.append(set_id.as_str());
                s.append("': ");
                s.append(cause.as_str());
                s
            },
            SetParsingError::SetFilterStateReferencesValidationFailed { set_id, state_references, cause } => {
                let mut s = String::from_str("Set filter state references [");
                s.append(join_strings(state_references, ", ").as_str());
                s.append("] validation failed for set '");
                s.append(set_id.as_str());
                s.append("': ");
                s.append(cause.as_str());
                s
            },
            SetParsingError::UnionOperandValidationFailed { set_id, operand_index, operand_content } => {
                let mut s = String::from_str("Union operand validation failed at index ");
                s.append(usize_to_string(*operand_index).as_str());
                s.append(" in set '");
                s.append(set_id.as_str());
                s.append("': ");
                s.append(operand_content.as_str());
                s
            },
            SetParsingError::IntersectionOperandValidationFailed { set_id, operand_index, operand_content } => {
                let mut s = String::from_str("Intersection operand validation failed at index ");
                s.append(usize_to_string(*operand_index).as_str());
                s.append(" in set '");
                s.append(set_id.as_str());
                s.append("': ");
                s.append(operand_content.as_str());
                s
            },
            SetParsingError::ComplementOperandValidationFailed { set_id, operand_index, operand_content } => {
                let mut s = String::from_str("Complement operand validation failed at index ");
                s.append(usize_to_string(*operand_index).as_str());
                s.append(" in set '");
                s.append(set_id.as_str());
                s.append("': ");
                s.append(operand_content.as_str());
                s
            },
            SetParsingError::SetOperationConsistencyValidationFailed { set_id, operation_type, inconsistency_reason } => {
                let mut s = String::from_str("Set operation consistency validation failed for ");
                s.append(operation_type.debug_name());
                s.append(" operation in set '");
                s.append(set_id.as_str());
                s.append("': ");
                s.append(inconsistency_reason.as_str());
                s
            },
            SetParsingError::NestedSetDepthLimitExceeded { set_id, depth, max_depth } => {
                let mut s = String::from_str("Nested set depth limit exceeded for set '");
                s.append(set_id.as_str());
                s.append("': ");
                s.append(usize_to_string(*depth).as_str());
                s.append(" > ");
                s.append(usize_to_string(*max_depth).as_str());
                s.append(" (max allowed)");
                s
            },
            SetParsingError::SetOperandReferenceResolutionFailed { set_id, operand_index, reference_id, resolution_error } => {
                let mut s = String::from_str("Set operand reference resolution failed for '");
                s.append(reference_id.as_str());
                s.append("' at index ");
                s.append(usize_to_string(*operand_index).as_str());
                s.append(" in set '");
                s.append(set_id.as_str());
                s.append("': ");
                s.append(resolution_error.as_str());
                s
            },
        }
    }
}

} // verus!
