//! Errors raised while parsing states.

use vstd::prelude::*;
use crate::strings::{to_owned_string, join_strings, join_sep, usize_to_string, decimal};
use crate::types::common::{DataType, Operation, data_type_debug, operation_debug};

verus! {

/// Errors raised while parsing a state.
#[allow(inconsistent_fields)]
#[derive(Debug, Clone)]
pub enum StateParsingError {
    /// Failed to parse state declaration from JSON
    StateDeclarationParsingFailed { state_id: String, cause: String },
    /// State field parsing failed
    StateFieldParsingFailed { state_id: String, field_index: usize, field_name: String, cause: String },
    /// Invalid operation for field data type
    InvalidOperationForDataType { state_id: String, field_name: String, data_type: DataType, operation: Operation },
    /// Entity check parsing failed
    EntityCheckParsingFailed { state_id: String, field_name: String, entity_check: String },
    /// Record check parsing failed
    RecordCheckParsingFailed { state_id: String, record_index: usize, cause: String },
    /// Invalid record content type
    InvalidRecordContentType { state_id: String, record_index: usize, content_type: String },
    /// Record field path parsing failed
    RecordFieldPathParsingFailed { state_id: String, field_path: String, cause: String },
    /// Invalid field path format
    InvalidFieldPathFormat { state_id: String, field_path: String, expected_format: String },
    /// Empty state definition (no fields or record checks)
    EmptyStateDefinition { state_id: String },
    /// Missing required field in state field definition
    MissingRequiredField { state_id: String, field_name: String, missing_field: String },
    /// Invalid data type specification
    InvalidDataType { state_id: String, field_name: String, data_type: String },
    /// State identifier validation failed
    InvalidStateIdentifier { state_id: String, cause: String },
    /// CTN state extraction failed
    CtnStateExtractionFailed { ctn_node_id: usize, ctn_type: String, cause: String },
    /// Value parsing failed for state field
    ValueParsingFailed { state_id: String, field_name: String, value_content: String, cause: String },
    /// Invalid operation specification
    InvalidOperation { state_id: String, field_name: String, operation: String, valid_operations: Vec<String> },
    /// Record data type validation failed
    RecordDataTypeValidationFailed { state_id: String, record_index: usize, data_type: String },
    /// Nested record field validation failed
    NestedRecordFieldValidationFailed { state_id: String, field_path: String, validation_error: String },
    /// Direct record operation validation failed
    DirectRecordOperationValidationFailed { state_id: String, operation: String, cause: String },
    /// State reference parsing failed
    StateReferenceParsingFailed { context: String, reference_content: String, cause: String },
    /// Multiple entity checks specified (only one allowed)
    MultipleEntityChecks { state_id: String, field_name: String, entity_checks: Vec<String> },
    /// Field name collision within state
    FieldNameCollision { state_id: String, field_name: String, first_occurrence_index: usize, second_occurrence_index: usize },
}

/// The message that describes an error.
pub open spec fn state_parsing_error_message(e: StateParsingError) -> Seq<char> {
    match e {
        StateParsingError::StateDeclarationParsingFailed { state_id, cause } => "Failed to parse state '"@ + state_id@ + "': "@ + cause@,
        StateParsingError::StateFieldParsingFailed { state_id, field_index, field_name, cause } => "Failed to parse field '"@ + field_name@ + "' (index "@ + decimal(field_index as nat) + ") in state '"@ + state_id@ + "': "@ + cause@,
        StateParsingError::InvalidOperationForDataType { state_id, field_name, data_type, operation } => "Invalid operation '"@ + operation_debug(operation) + "' for data type '"@ + data_type_debug(data_type) + "' in field '"@ + field_name@ + "' of state '"@ + state_id@ + "'"@,
        StateParsingError::EntityCheckParsingFailed { state_id, field_name, entity_check } => "Failed to parse entity check '"@ + entity_check@ + "' for field '"@ + field_name@ + "' in state '"@ + state_id@ + "'"@,
        StateParsingError::RecordCheckParsingFailed { state_id, record_index, cause } => "Failed to parse record check "@ + decimal(record_index as nat) + " in state '"@ + state_id@ + "': "@ + cause@,
        StateParsingError::InvalidRecordContentType { state_id, record_index, content_type } => "Invalid record content type '"@ + content_type@ + "' in record "@ + decimal(record_index as nat) + " of state '"@ + state_id@ + "'"@,
        StateParsingError::RecordFieldPathParsingFailed { state_id, field_path, cause } => "Failed to parse record field path '"@ + field_path@ + "' in state '"@ + state_id@ + "': "@ + cause@,
        StateParsingError::InvalidFieldPathFormat { state_id, field_path, expected_format } => "Invalid field path format '"@ + field_path@ + "' in state '"@ + state_id@ + "'. Expected: "@ + expected_format@,
        StateParsingError::EmptyStateDefinition { state_id } => "State '"@ + state_id@ + "' has no fields or record checks (empty states not allowed)"@,
        StateParsingError::MissingRequiredField { state_id, field_name, missing_field } => "Field '"@ + field_name@ + "' in state '"@ + state_id@ + "' missing required field '"@ + missing_field@ + "'"@,
        StateParsingError::InvalidDataType { state_id, field_name, data_type } => "Invalid data type '"@ + data_type@ + "' for field '"@ + field_name@ + "' in state '"@ + state_id@ + "'"@,
        StateParsingError::InvalidStateIdentifier { state_id, cause } => "Invalid state identifier '"@ + state_id@ + "': "@ + cause@,
        StateParsingError::CtnStateExtractionFailed { ctn_node_id, ctn_type, cause } => "Failed to extract local states from CTN "@ + decimal(ctn_node_id as nat) + " ("@ + ctn_type@ + "): "@ + cause@,
        StateParsingError::ValueParsingFailed { state_id, field_name, value_content, cause } => "Failed to parse value '"@ + value_content@ + "' for field '"@ + field_name@ + "' in state '"@ + state_id@ + "': "@ + cause@,
        StateParsingError::InvalidOperation { state_id, field_name, operation, valid_operations } => "Invalid operation '"@ + operation@ + "' for field '"@ + field_name@ + "' in state '"@ + state_id@ + "'. Valid: ["@ + join_sep(valid_operations@.map_values(|x: String| x@), ", "@) + "]"@,
        StateParsingError::RecordDataTypeValidationFailed { state_id, record_index, data_type } => "Record data type validation failed for '"@ + data_type@ + "' in record "@ + decimal(record_index as nat) + " of state '"@ + state_id@ + "'"@,
        StateParsingError::NestedRecordFieldValidationFailed { state_id, field_path, validation_error } => "Nested record field validation failed for '"@ + field_path@ + "' in state '"@ + state_id@ + "': "@ + validation_error@,
        StateParsingError::DirectRecordOperationValidationFailed { state_id, operation, cause } => "Direct record operation '"@ + operation@ + "' validation failed in state '"@ + state_id@ + "': "@ + cause@,
        StateParsingError::StateReferenceParsingFailed { context, reference_content, cause } => "Failed to parse state reference '"@ + reference_content@ + "' in context '"@ + context@ + "': "@ + cause@,
        StateParsingError::MultipleEntityChecks { state_id, field_name, entity_checks } => "Multiple entity checks specified for field '"@ + field_name@ + "' in state '"@ + state_id@ + "': ["@ + join_sep(entity_checks@.map_values(|x: String| x@), ", "@) + "] (only one allowed)"@,
        StateParsingError::FieldNameCollision { state_id, field_name, first_occurrence_index, second_occurrence_index } => "Field name collision in state '"@ + state_id@ + "': field '"@ + field_name@ + "' appears at indices "@ + decimal(first_occurrence_index as nat) + " and "@ + decimal(second_occurrence_index as nat) + " (duplicate names not allowed)"@,
    }
}

impl StateParsingError {
    /// Create state declaration parsing error
    pub fn state_declaration_parsing_failed(state_id: &str, cause: &str) -> (res: StateParsingError)
        ensures
            res matches StateParsingError::StateDeclarationParsingFailed { state_id: b_state_id, cause: b_cause }
                && b_state_id@ == state_id@
                && b_cause@ == cause@,
    {
        StateParsingError::StateDeclarationParsingFailed { state_id: String::from_str(state_id), cause: String::from_str(cause) }
    }

    /// Create state field parsing error
    pub fn state_field_parsing_failed(state_id: &str, field_index: usize, field_name: &str, cause: &str) -> (res: StateParsingError)
        ensures
            res matches StateParsingError::StateFieldParsingFailed { state_id: b_state_id, field_index: b_field_index, field_name: b_field_name, cause: b_cause }
                && b_state_id@ == state_id@
                && b_field_index == field_index
                && b_field_name@ == field_name@
                && b_cause@ == cause@,
    {
        StateParsingError::StateFieldParsingFailed { state_id: String::from_str(state_id), field_index: field_index, field_name: String::from_str(field_name), cause: String::from_str(cause) }
    }

    /// Create invalid operation for data type error
    pub fn invalid_operation_for_data_type(state_id: &str, field_name: &str, data_type: DataType, operation: Operation) -> (res: StateParsingError)
        ensures
            res matches StateParsingError::InvalidOperationForDataType { state_id: b_state_id, field_name: b_field_name, data_type: b_data_type, operation: b_operation }
                && b_state_id@ == state_id@
                && b_field_name@ == field_name@
                && b_data_type == data_type
                && b_operation == operation,
    {
        StateParsingError::InvalidOperationForDataType { state_id: String::from_str(state_id), field_name: String::from_str(field_name), data_type: data_type, operation: operation }
    }

    /// Create empty state definition error
    pub fn empty_state_definition(state_id: &str) -> (res: StateParsingError)
        ensures
            res matches StateParsingError::EmptyStateDefinition { state_id: b_state_id }
                && b_state_id@ == state_id@,
    {
        StateParsingError::EmptyStateDefinition { state_id: String::from_str(state_id) }
    }

    /// Create CTN state extraction error
    pub fn ctn_state_extraction_failed(ctn_node_id: usize, ctn_type: &str, cause: &str) -> (res: StateParsingError)
        ensures
            res matches StateParsingError::CtnStateExtractionFailed { ctn_node_id: b_ctn_node_id, ctn_type: b_ctn_type, cause: b_cause }
                && b_ctn_node_id == ctn_node_id
                && b_ctn_type@ == ctn_type@
                && b_cause@ == cause@,
    {
        StateParsingError::CtnStateExtractionFailed { ctn_node_id: ctn_node_id, ctn_type: String::from_str(ctn_type), cause: String::from_str(cause) }
    }

    /// Create missing required field error
    pub fn missing_required_field(state_id: &str, field_name: &str, missing_field: &str) -> (res: StateParsingError)
        ensures
            res matches StateParsingError::MissingRequiredField { state_id: b_state_id, field_name: b_field_name, missing_field: b_missing_field }
                && b_state_id@ == state_id@
                && b_field_name@ == field_name@
                && b_missing_field@ == missing_field@,
    {
        StateParsingError::MissingRequiredField { state_id: String::from_str(state_id), field_name: String::from_str(field_name), missing_field: String::from_str(missing_field) }
    }

    /// Create invalid state identifier error
    pub fn invalid_state_identifier(state_id: &str, cause: &str) -> (res: StateParsingError)
        ensures
            res matches StateParsingError::InvalidStateIdentifier { state_id: b_state_id, cause: b_cause }
                && b_state_id@ == state_id@
                && b_cause@ == cause@,
    {
        StateParsingError::InvalidStateIdentifier { state_id: String::from_str(state_id), cause: String::from_str(cause) }
    }

    /// Create field name collision error
    pub fn field_name_collision(state_id: &str, field_name: &str, first_index: usize, second_index: usize) -> (res: StateParsingError)
        ensures
            res matches StateParsingError::FieldNameCollision { state_id: b_state_id, field_name: b_field_name, first_occurrence_index: b_first_occurrence_index, second_occurrence_index: b_second_occurrence_index }
                && b_state_id@ == state_id@
                && b_field_name@ == field_name@
                && b_first_occurrence_index == first_index
                && b_second_occurrence_index == second_index,
    {
        StateParsingError::FieldNameCollision { state_id: String::from_str(state_id), field_name: String::from_str(field_name), first_occurrence_index: first_index, second_occurrence_index: second_index }
    }

    /// The message that describes this error.
    pub fn to_string(&self) -> (res: String)
        ensures
            res@ == state_parsing_error_message(*self),
    {
        match self {
            StateParsingError::StateDeclarationParsingFailed { state_id, cause } => {
                let mut s = String::from_str("Failed to parse state '");
                s.append(state_id.as_str());
                s.append("': ");
                s.append(cause.as_str());
                s
            },
            StateParsingError::StateFieldParsingFailed { state_id, field_index, field_name, cause } => {
                let mut s = String::from_str("Failed to parse field '");
                s.append(field_name.as_str());
                s.append("' (index ");
                s.append(usize_to_string(*field_index).as_str());
                s.append(") in state '");
                s.append(state_id.as_str());
                s.append("': ");
                s.append(cause.as_str());
                s
            },
            StateParsingError::InvalidOperationForDataType { state_id, field_name, data_type, operation } => {
                let mut s = String::from_str("Invalid operation '");
                s.append(operation.debug_name());
                s.append("' for data type '");
                s.append(data_type.debug_name());
                s.append("' in field '");
                s.append(field_name.as_str());
                s.append("' of state '");
                s.append(state_id.as_str());
                s.append("'");
                s
            },
            StateParsingError::EntityCheckParsingFailed { state_id, field_name, entity_check } => {
                let mut s = String::from_str("Failed to parse entity check '");
                s.append(entity_check.as_str());
                s.append("' for field '");
                s.append(field_name.as_str());
                s.append("' in state '");
                s.append(state_id.as_str());
                s.append("'");
                s
            },
            StateParsingError::RecordCheckParsingFailed { state_id, record_index, cause } => {
                let mut s = String::from_str("Failed to parse record check ");
                s.append(usize_to_string(*record_index).as_str());
                s.append(" in state '");
                s.append(state_id.as_str());
                s.append("': ");
                s.append(cause.as_str());
                s
            },
            StateParsingError::InvalidRecordContentType { state_id, record_index, content_type } => {
                let mut s = String::from_str("Invalid record content type '");
                s.append(content_type.as_str());
                s.append("' in record ");
                s.append(usize_to_string(*record_index).as_str());
                s.append(" of state '");
                s.append(state_id.as_str());
                s.append("'");
                s
            },
            StateParsingError::RecordFieldPathParsingFailed { state_id, field_path, cause } => {
                let mut s = String::from_str("Failed to parse record field path '");
                s.append(field_path.as_str());
                s.append("' in state '");
                s.append(state_id.as_str());
                s.append("': ");
                s.append(cause.as_str());
                s
            },
            StateParsingError::InvalidFieldPathFormat { state_id, field_path, expected_format } => {
                let mut s = String::from_str("Invalid field path format '");
                s.append(field_path.as_str());
                s.append("' in state '");
                s.append(state_id.as_str());
                s.append("'. Expected: ");
                s.append(expected_format.as_str());
                s
            },
            StateParsingError::EmptyStateDefinition { state_id } => {
                let mut s = String::from_str("State '");
                s.append(state_id.as_str());
                s.append("' has no fields or record checks (empty states not allowed)");
                s
            },
            StateParsingError::MissingRequiredField { state_id, field_name, missing_field } => {
                let mut s = String::from_str("Field '");
                s.append(field_name.as_str());
                s.append("' in state '");
                s.append(state_id.as_str());
                s.append("' missing required field '");
                s.append(missing_field.as_str());
                s.append("'");
                s
            },
            StateParsingError::InvalidDataType { state_id, field_name, data_type } => {
                let mut s = String::from_str("Invalid data type '");
                s.append(data_type.as_str());
                s.append("' for field '");
                s.append(field_name.as_str());
                s.append("' in state '");
                s.append(state_id.as_str());
                s.append("'");
                s
            },
            StateParsingError::InvalidStateIdentifier { state_id, cause } => {
                let mut s = String::from_str("Invalid state identifier '");
                s.append(state_id.as_str());
                s.append("': ");
                s.append(cause.as_str());
                s
            },
            StateParsingError::CtnStateExtractionFailed { ctn_node_id, ctn_type, cause } => {
                let mut s = String::from_str("Failed to extract local states from CTN ");
                s.append(usize_to_string(*ctn_node_id).as_str());
                s.append(" (");
                s.append(ctn_type.as_str());
                s.append("): ");
                s.append(cause.as_str());
                s
            },
            StateParsingError::ValueParsingFailed { state_id, field_name, value_content, cause } => {
                let mut s = String::from_str("Failed to parse value '");
                s.append(value_content.as_str());
                s.append("' for field '");
                s.append(field_name.as_str());
                s.append("' in state '");
                s.append(state_id.as_str());
                s.append("': ");
                s.append(cause.as_str());
                s
            },
            StateParsingError::InvalidOperation { state_id, field_name, operation, valid_operations } => {
                let mut s = String::from_str("Invalid operation '");
                s.append(operation.as_str());
                s.append("' for field '");
                s.append(field_name.as_str());
                s.append("' in state '");
                s.append(state_id.as_str());
                s.append("'. Valid: [");
                s.append(join_strings(valid_operations, ", ").as_str());
                s.append("]");
                s
            },
            StateParsingError::RecordDataTypeValidationFailed { state_id, record_index, data_type } => {
                let mut s = String::from_str("Record data type validation failed for '");
                s.append(data_type.as_str());
                s.append("' in record ");
                s.append(usize_to_string(*record_index).as_str());
                s.append(" of state '");
                s.append(state_id.as_str());
                s.append("'");
                s
            },
            StateParsingError::NestedRecordFieldValidationFailed { state_id, field_path, validation_error } => {
                let mut s = String::from_str("Nested record field validation failed for '");
                s.append(field_path.as_str());
                s.append("' in state '");
                s.append(state_id.as_str());
                s.append("': ");
                s.append(validation_error.as_str());
                s
            },
            StateParsingError::DirectRecordOperationValidationFailed { state_id, operation, cause } => {
                let mut s = String::from_str("Direct record operation '");
                s.append(operation.as_str());
                s.append("' validation failed in state '");
                s.append(state_id.as_str());
                s.append("': ");
                s.append(cause.as_str());
                s
            },
            StateParsingError::StateReferenceParsingFailed { context, reference_content, cause } => {
                let mut s = String::from_str("Failed to parse state reference '");
                s.append(reference_content.as_str());
                s.append("' in context '");
                s.append(context.as_str());
                s.append("': ");
                s.append(cause.as_str());
                s
            },
            StateParsingError::MultipleEntityChecks { state_id, field_name, entity_checks } => {
                let mut s = String::from_str("Multiple entity checks specified for field '");
                s.append(field_name.as_str());
                s.append("' in state '");
                s.append(state_id.as_str());
                s.append("': [");
                s.append(join_strings(entity_checks, ", ").as_str());
                s.append("] (only one allowed)");
                s
            },
            StateParsingError::FieldNameCollision { state_id, field_name, first_occurrence_index, second_occurrence_index } => {
                let mut s = String::from_str("Field name collision in state '");
                s.append(state_id.as_str());
                s.append("': field '");
                s.append(field_name.as_str());
                s.append("' appears at indices ");
                s.append(usize_to_string(*first_occurrence_index).as_str());
                s.append(" and ");
                s.append(usize_to_string(*second_occurrence_index).as_str());
                s.append(" (duplicate names not allowed)");
                s
            },
        }
    }
}

} // verus!
