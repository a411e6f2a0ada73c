//! Errors raised while parsing runtime operations.

use vstd::prelude::*;
use crate::strings::{to_owned_string, join_strings, join_sep, usize_to_string, decimal, i64_to_string, signed_decimal};
use crate::types::runtime_operation::{RuntimeOperationType, runtime_operation_debug};

verus! {

/// Errors raised while parsing a RUN operation.
#[allow(inconsistent_fields)]
#[derive(Debug, Clone)]
pub enum RuntimeOperationParsingError {
    /// Failed to parse runtime operation from JSON
    RuntimeOperationParsingFailed { target_variable: String, cause: String },
    /// Invalid runtime operation type
    InvalidRuntimeOperationType { target_variable: String, operation_type: String, valid_operations: Vec<String> },
    /// Runtime operation parameter parsing failed
    RunParameterParsingFailed { target_variable: String, parameter_index: usize, cause: String },
    /// Unknown run parameter type
    UnknownRunParameterType { target_variable: String, parameter_index: usize, parameter_type: String, available_keys: Vec<String> },
    /// Missing required parameters for operation type
    MissingRequiredParameters { target_variable: String, operation_type: RuntimeOperationType, missing_parameters: Vec<String> },
    /// Invalid parameter count for operation type
    InvalidParameterCount { target_variable: String, operation_type: RuntimeOperationType, parameter_count: usize, expected_count: Option<usize> },
    /// Object extraction parameter validation failed
    ObjectExtractionValidationFailed { target_variable: String, object_id: String, field_name: String, cause: String },
    /// Variable reference validation failed in parameter
    VariableReferenceValidationFailed { target_variable: String, referenced_variable: String, cause: String },
    /// Arithmetic operator validation failed
    ArithmeticOperatorValidationFailed { target_variable: String, operator: String, cause: String },
    /// Pattern specification validation failed
    PatternSpecificationValidationFailed { target_variable: String, pattern: String, cause: String },
    /// Delimiter specification validation failed
    DelimiterSpecificationValidationFailed { target_variable: String, delimiter: String, cause: String },
    /// Position/length parameter validation failed
    PositionParameterValidationFailed { target_variable: String, parameter_type: String, value: i64, cause: String },
    /// Empty runtime operation (no parameters)
    EmptyRuntimeOperation { target_variable: String },
    /// Target variable identifier validation failed
    InvalidTargetVariableIdentifier { target_variable: String, cause: String },
    /// Missing required field in runtime operation definition
    MissingRequiredField { target_variable: String, missing_field: String },
    /// Literal value parsing failed in parameter
    LiteralValueParsingFailed { target_variable: String, parameter_index: usize, literal_content: String, cause: String },
    /// Runtime operation structure validation failed
    RuntimeOperationStructureValidationFailed { target_variable: String, expected_structure: String, actual_structure: String },
    /// Parameter type mismatch for operation
    ParameterTypeMismatch { target_variable: String, operation_type: RuntimeOperationType, parameter_index: usize, expected_types: Vec<String>, found_type: String },
    /// Multiple parameters of same type when only one allowed
    DuplicateParameterType { target_variable: String, parameter_type: String, first_occurrence_index: usize, second_occurrence_index: usize },
    /// CONCAT operation validation failed
    ConcatOperationValidationFailed { target_variable: String, parameter_count: usize, cause: String },
    /// SPLIT operation validation failed
    SplitOperationValidationFailed { target_variable: String, has_delimiter: bool, cause: String },
    /// SUBSTRING operation validation failed
    SubstringOperationValidationFailed { target_variable: String, has_start: bool, has_length: bool, cause: String },
    /// REGEX_CAPTURE operation validation failed
    RegexCaptureOperationValidationFailed { target_variable: String, has_pattern: bool, cause: String },
    /// ARITHMETIC operation validation failed
    ArithmeticOperationValidationFailed { target_variable: String, arithmetic_parameter_count: usize, cause: String },
    /// EXTRACT operation validation failed
    ExtractOperationValidationFailed { target_variable: String, has_object_extraction: bool, cause: String },
    /// Runtime operation consistency validation failed
    RuntimeOperationConsistencyValidationFailed { target_variable: String, operation_type: RuntimeOperationType, inconsistency_reason: String },
}

/// The message that describes an error.
pub open spec fn runtime_operation_parsing_error_message(e: RuntimeOperationParsingError) -> Seq<char> {
    match e {
        RuntimeOperationParsingError::RuntimeOperationParsingFailed { target_variable, cause } => "Failed to parse runtime operation for variable '"@ + target_variable@ + "': "@ + cause@,
        RuntimeOperationParsingError::InvalidRuntimeOperationType { target_variable, operation_type, valid_operations } => "Invalid runtime operation type '"@ + operation_type@ + "' for variable '"@ + target_variable@ + "'. Valid operations: ["@ + join_sep(valid_operations@.map_values(|x: String| x@), ", "@) + "]"@,
        RuntimeOperationParsingError::RunParameterParsingFailed { target_variable, parameter_index, cause } => "Failed to parse parameter "@ + decimal(parameter_index as nat) + " for runtime operation '"@ + target_variable@ + "': "@ + cause@,
        RuntimeOperationParsingError::UnknownRunParameterType { target_variable, parameter_index, parameter_type, available_keys } => "Unknown parameter type '"@ + parameter_type@ + "' at index "@ + decimal(parameter_index as nat) + " for runtime operation '"@ + target_variable@ + "'. Available: ["@ + join_sep(available_keys@.map_values(|x: String| x@), ", "@) + "]"@,
        RuntimeOperationParsingError::MissingRequiredParameters { target_variable, operation_type, missing_parameters } => "Missing required parameters for "@ + runtime_operation_debug(operation_type) + " operation '"@ + target_variable@ + "': ["@ + join_sep(missing_parameters@.map_values(|x: String| x@), ", "@) + "]"@,
        RuntimeOperationParsingError::InvalidParameterCount { target_variable, operation_type, parameter_count, expected_count } => match expected_count { Some(expected) => "Invalid parameter count "@ + decimal(parameter_count as nat) + " for "@ + runtime_operation_debug(operation_type) + " operation '"@ + target_variable@ + "'. Expected: "@ + decimal(expected as nat), None => "Invalid parameter count "@ + decimal(parameter_count as nat) + " for "@ + runtime_operation_debug(operation_type) + " operation '"@ + target_variable@ + "'"@ },
        RuntimeOperationParsingError::ObjectExtractionValidationFailed { target_variable, object_id, field_name, cause } => "Object extraction validation failed for '"@ + object_id@ + "."@ + field_name@ + "' in runtime operation '"@ + target_variable@ + "': "@ + cause@,
        RuntimeOperationParsingError::VariableReferenceValidationFailed { target_variable, referenced_variable, cause } => "Variable reference validation failed for '"@ + referenced_variable@ + "' in runtime operation '"@ + target_variable@ + "': "@ + cause@,
        RuntimeOperationParsingError::ArithmeticOperatorValidationFailed { target_variable, operator, cause } => "Arithmetic operator '"@ + operator@ + "' validation failed for runtime operation '"@ + target_variable@ + "': "@ + cause@,
        RuntimeOperationParsingError::PatternSpecificationValidationFailed { target_variable, pattern, cause } => "Pattern specification '"@ + pattern@ + "' validation failed for runtime operation '"@ + target_variable@ + "': "@ + cause@,
        RuntimeOperationParsingError::DelimiterSpecificationValidationFailed { target_variable, delimiter, cause } => "Delimiter specification '"@ + delimiter@ + "' validation failed for runtime operation '"@ + target_variable@ + "': "@ + cause@,
        RuntimeOperationParsingError::PositionParameterValidationFailed { target_variable, parameter_type, value, cause } => "Position parameter '"@ + parameter_type@ + "' with value "@ + signed_decimal(value as int) + " validation failed for runtime operation '"@ + target_variable@ + "': "@ + cause@,
        RuntimeOperationParsingError::EmptyRuntimeOperation { target_variable } => "Runtime operation '"@ + target_variable@ + "' has no parameters (empty operations not allowed)"@,
        RuntimeOperationParsingError::InvalidTargetVariableIdentifier { target_variable, cause } => "Invalid target variable identifier '"@ + target_variable@ + "': "@ + cause@,
        RuntimeOperationParsingError::MissingRequiredField { target_variable, missing_field } => "Runtime operation '"@ + target_variable@ + "' missing required field '"@ + missing_field@ + "'"@,
        RuntimeOperationParsingError::LiteralValueParsingFailed { target_variable, parameter_index, literal_content, cause } => "Failed to parse literal value '"@ + literal_content@ + "' at parameter "@ + decimal(parameter_index as nat) + " for runtime operation '"@ + target_variable@ + "': "@ + cause@,
        RuntimeOperationParsingError::RuntimeOperationStructureValidationFailed { target_variable, expected_structure, actual_structure } => "Runtime operation structure validation failed for '"@ + target_variable@ + "'. Expected: "@ + expected_structure@ + ", Found: "@ + actual_structure@,
        RuntimeOperationParsingError::ParameterTypeMismatch { target_variable, operation_type, parameter_index, expected_types, found_type } => "Parameter type mismatch at index "@ + decimal(parameter_index as nat) + " for "@ + runtime_operation_debug(operation_type) + " operation '"@ + target_variable@ + "'. Expected: ["@ + join_sep(expected_types@.map_values(|x: String| x@), ", "@) + "], Found: "@ + found_type@,
        RuntimeOperationParsingError::DuplicateParameterType { target_variable, parameter_type, first_occurrence_index, second_occurrence_index } => "Duplicate parameter type '"@ + parameter_type@ + "' in runtime operation '"@ + target_variable@ + "' at indices "@ + decimal(first_occurrence_index as nat) + " and "@ + decimal(second_occurrence_index as nat) + " (duplicates not allowed)"@,
        RuntimeOperationParsingError::ConcatOperationValidationFailed { target_variable, parameter_count, cause } => "CONCAT operation validation failed for '"@ + target_variable@ + "' with "@ + decimal(parameter_count as nat) + " parameters: "@ + cause@,
        RuntimeOperationParsingError::SplitOperationValidationFailed { target_variable, has_delimiter, cause } => "SPLIT operation validation failed for '"@ + target_variable@ + "' (has delimiter: "@ + (if has_delimiter { "true"@ } else { "false"@ }) + "): "@ + cause@,
        RuntimeOperationParsingError::SubstringOperationValidationFailed { target_variable, has_start, has_length, cause } => "SUBSTRING operation validation failed for '"@ + target_variable@ + "' (has start: "@ + (if has_start { "true"@ } else { "false"@ }) + ", has length: "@ + (if has_length { "true"@ } else { "false"@ }) + "): "@ + cause@,
        RuntimeOperationParsingError::RegexCaptureOperationValidationFailed { target_variable, has_pattern, cause } => "REGEX_CAPTURE operation validation failed for '"@ + target_variable@ + "' (has pattern: "@ + (if has_pattern { "true"@ } else { "false"@ }) + "): "@ + cause@,
        RuntimeOperationParsingError::ArithmeticOperationValidationFailed { target_variable, arithmetic_parameter_count, cause } => "ARITHMETIC operation validation failed for '"@ + target_variable@ + "' with "@ + decimal(arithmetic_parameter_count as nat) + " arithmetic parameters: "@ + cause@,
        RuntimeOperationParsingError::ExtractOperationValidationFailed { target_variable, has_object_extraction, cause } => "EXTRACT operation validation failed for '"@ + target_variable@ + "' (has object extraction: "@ + (if has_object_extraction { "true"@ } else { "false"@ }) + "): "@ + cause@,
        RuntimeOperationParsingError::RuntimeOperationConsistencyValidationFailed { target_variable, operation_type, inconsistency_reason } => "Runtime operation consistency validation failed for "@ + runtime_operation_debug(operation_type) + " operation '"@ + target_variable@ + "': "@ + inconsistency_reason@,
    }
}

impl RuntimeOperationParsingError {
    /// Create runtime operation parsing error
    pub fn runtime_operation_parsing_failed(target_variable: &str, cause: &str) -> (res: RuntimeOperationParsingError)
        ensures
            res matches RuntimeOperationParsingError::RuntimeOperationParsingFailed { target_variable: b_target_variable, cause: b_cause }
                && b_target_variable@ == target_variable@
                && b_cause@ == cause@,
    {
        RuntimeOperationParsingError::RuntimeOperationParsingFailed { target_variable: String::from_str(target_variable), cause: String::from_str(cause) }
    }

    /// Create invalid runtime operation type error
    pub fn invalid_runtime_operation_type(target_variable: &str, operation_type: &str) -> (res: RuntimeOperationParsingError)
        ensures
            res matches RuntimeOperationParsingError::InvalidRuntimeOperationType { target_variable: b_target_variable, operation_type: b_operation_type, valid_operations: b_valid_operations }
                && b_target_variable@ == target_variable@
                && b_operation_type@ == operation_type@
                && b_valid_operations@.map_values(|x: String| x@) == seq!["CONCAT"@, "SPLIT"@, "SUBSTRING"@, "REGEX_CAPTURE"@, "ARITHMETIC"@, "COUNT"@, "UNIQUE"@, "END"@, "MERGE"@, "EXTRACT"@],
    {
        let mut valid_operations_v: Vec<String> = Vec::new();
        valid_operations_v.push(String::from_str("CONCAT"));
        valid_operations_v.push(String::from_str("SPLIT"));
        valid_operations_v.push(String::from_str("SUBSTRING"));
        valid_operations_v.push(String::from_str("REGEX_CAPTURE"));
        valid_operations_v.push(String::from_str("ARITHMETIC"));
        valid_operations_v.push(String::from_str("COUNT"));
        valid_operations_v.push(String::from_str("UNIQUE"));
        valid_operations_v.push(String::from_str("END"));
        valid_operations_v.push(String::from_str("MERGE"));
        valid_operations_v.push(String::from_str("EXTRACT"));
        proof {
            assert(valid_operations_v@.map_values(|x: String| x@) =~= seq!["CONCAT"@, "SPLIT"@, "SUBSTRING"@, "REGEX_CAPTURE"@, "ARITHMETIC"@, "COUNT"@, "UNIQUE"@, "END"@, "MERGE"@, "EXTRACT"@]);
        }
        RuntimeOperationParsingError::InvalidRuntimeOperationType { target_variable: String::from_str(target_variable), operation_type: String::from_str(operation_type), valid_operations: valid_operations_v }
    }

    /// Create run parameter parsing error
    pub fn run_parameter_parsing_failed(target_variable: &str, parameter_index: usize, cause: &str) -> (res: RuntimeOperationParsingError)
        ensures
            res matches RuntimeOperationParsingError::RunParameterParsingFailed { target_variable: b_target_variable, parameter_index: b_parameter_index, cause: b_cause }
                && b_target_variable@ == target_variable@
                && b_parameter_index == parameter_index
                && b_cause@ == cause@,
    {
        RuntimeOperationParsingError::RunParameterParsingFailed { target_variable: String::from_str(target_variable), parameter_index: parameter_index, cause: String::from_str(cause) }
    }

    /// Create unknown run parameter type error
    pub fn unknown_run_parameter_type(target_variable: &str, parameter_index: usize, parameter_type: &str, available_keys: Vec<String>) -> (res: RuntimeOperationParsingError)
        ensures
            res matches RuntimeOperationParsingError::UnknownRunParameterType { target_variable: b_target_variable, parameter_index: b_parameter_index, parameter_type: b_parameter_type, available_keys: b_available_keys }
                && b_target_variable@ == target_variable@
                && b_parameter_index == parameter_index
                && b_parameter_type@ == parameter_type@
                && b_available_keys == available_keys,
    {
        RuntimeOperationParsingError::UnknownRunParameterType { target_variable: String::from_str(target_variable), parameter_index: parameter_index, parameter_type: String::from_str(parameter_type), available_keys: available_keys }
    }

    /// Create missing required parameters error
    pub fn missing_required_parameters(target_variable: &str, operation_type: RuntimeOperationType, missing_parameters: Vec<String>) -> (res: RuntimeOperationParsingError)
        ensures
            res matches RuntimeOperationParsingError::MissingRequiredParameters { target_variable: b_target_variable, operation_type: b_operation_type, missing_parameters: b_missing_parameters }
                && b_target_variable@ == target_variable@
                && b_operation_type == operation_type
                && b_missing_parameters == missing_parameters,
    {
        RuntimeOperationParsingError::MissingRequiredParameters { target_variable: String::from_str(target_variable), operation_type: operation_type, missing_parameters: missing_parameters }
    }

    /// Create empty runtime operation error
    pub fn empty_runtime_operation(target_variable: &str) -> (res: RuntimeOperationParsingError)
        ensures
            res matches RuntimeOperationParsingError::EmptyRuntimeOperation { target_variable: b_target_variable }
                && b_target_variable@ == target_variable@,
    {
        RuntimeOperationParsingError::EmptyRuntimeOperation { target_variable: String::from_str(target_variable) }
    }

    /// Create missing required field error
    pub fn missing_required_field(target_variable: &str, missing_field: &str) -> (res: RuntimeOperationParsingError)
        ensures
            res matches RuntimeOperationParsingError::MissingRequiredField { target_variable: b_target_variable, missing_field: b_missing_field }
                && b_target_variable@ == target_variable@
                && b_missing_field@ == missing_field@,
    {
        RuntimeOperationParsingError::MissingRequiredField { target_variable: String::from_str(target_variable), missing_field: String::from_str(missing_field) }
    }

    /// Create invalid target variable identifier error
    pub fn invalid_target_variable_identifier(target_variable: &str, cause: &str) -> (res: RuntimeOperationParsingError)
        ensures
            res matches RuntimeOperationParsingError::InvalidTargetVariableIdentifier { target_variable: b_target_variable, cause: b_cause }
                && b_target_variable@ == target_variable@
                && b_cause@ == cause@,
    {
        RuntimeOperationParsingError::InvalidTargetVariableIdentifier { target_variable: String::from_str(target_variable), cause: String::from_str(cause) }
    }

    /// Create object extraction validation error
    pub fn object_extraction_validation_failed(target_variable: &str, object_id: &str, field_name: &str, cause: &str) -> (res: RuntimeOperationParsingError)
        ensures
            res matches RuntimeOperationParsingError::ObjectExtractionValidationFailed { target_variable: b_target_variable, object_id: b_object_id, field_name: b_field_name, cause: b_cause }
                && b_target_variable@ == target_variable@
                && b_object_id@ == object_id@
                && b_field_name@ == field_name@
                && b_cause@ == cause@,
    {
        RuntimeOperationParsingError::ObjectExtractionValidationFailed { target_variable: String::from_str(target_variable), object_id: String::from_str(object_id), field_name: String::from_str(field_name), cause: String::from_str(cause) }
    }

    /// Create duplicate parameter type error
    pub fn duplicate_parameter_type(target_variable: &str, parameter_type: &str, first_index: usize, second_index: usize) -> (res: RuntimeOperationParsingError)
        ensures
            res matches RuntimeOperationParsingError::DuplicateParameterType { target_variable: b_target_variable, parameter_type: b_parameter_type, first_occurrence_index: b_first_occurrence_index, second_occurrence_index: b_second_occurrence_index }
                && b_target_variable@ == target_variable@
                && b_parameter_type@ == parameter_type@
                && b_first_occurrence_index == first_index
                && b_second_occurrence_index == second_index,
    {
        RuntimeOperationParsingError::DuplicateParameterType { target_variable: String::from_str(target_variable), parameter_type: String::from_str(parameter_type), first_occurrence_index: first_index, second_occurrence_index: second_index }
    }

    /// The message that describes this error.
    pub fn to_string(&self) -> (res: String)
        ensures
            res@ == runtime_operation_parsing_error_message(*self),
    {
        match self {
            RuntimeOperationParsingError::RuntimeOperationParsingFailed { target_variable, cause } => {
                let mut s = String::from_str("Failed to parse runtime operation for variable '");
                s.append(target_variable.as_str());
                s.append("': ");
                s.append(cause.as_str());
                s
            },
            RuntimeOperationParsingError::InvalidRuntimeOperationType { target_variable, operation_type, valid_operations } => {
                let mut s = String::from_str("Invalid runtime operation type '");
                s.append(operation_type.as_str());
                s.append("' for variable '");
                s.append(target_variable.as_str());
                s.append("'. Valid operations: [");
                s.append(join_strings(valid_operations, ", ").as_str());
                s.append("]");
                s
            },
            RuntimeOperationParsingError::RunParameterParsingFailed { target_variable, parameter_index, cause } => {
                let mut s = String::from_str("Failed to parse parameter ");
                s.append(usize_to_string(*parameter_index).as_str());
                s.append(" for runtime operation '");
                s.append(target_variable.as_str());
                s.append("': ");
                s.append(cause.as_str());
                s
            },
            RuntimeOperationParsingError::UnknownRunParameterType { target_variable, parameter_index, parameter_type, available_keys } => {
                let mut s = String::from_str("Unknown parameter type '");
                s.append(parameter_type.as_str());
                s.append("' at index ");
                s.append(usize_to_string(*parameter_index).as_str());
                s.append(" for runtime operation '");
                s.append(target_variable.as_str());
                s.append("'. Available: [");
                s.append(join_strings(available_keys, ", ").as_str());
                s.append("]");
                s
            },
            RuntimeOperationParsingError::MissingRequiredParameters { target_variable, operation_type, missing_parameters } => {
                let mut s = String::from_str("Missing required parameters for ");
                s.append(operation_type.debug_name());
                s.append(" operation '");
                s.append(target_variable.as_str());
                s.append("': [");
                s.append(join_strings(missing_parameters, ", ").as_str());
                s.append("]");
                s
            },
            RuntimeOperationParsingError::InvalidParameterCount { target_variable, operation_type, parameter_count, expected_count } => {
                match expected_count {
                    Some(expected) => {
                        let mut s = String::from_str("Invalid parameter count ");
                        s.append(usize_to_string(*parameter_count).as_str());
                        s.append(" for ");
                        s.append(operation_type.debug_name());
                        s.append(" operation '");
                        s.append(target_variable.as_str());
                        s.append("'. Expected: ");
                        s.append(usize_to_string(*expected).as_str());
                        s
                    },
                    None => {
                        let mut s = String::from_str("Invalid parameter count ");
                        s.append(usize_to_string(*parameter_count).as_str());
                        s.append(" for ");
                        s.append(operation_type.debug_name());
                        s.append(" operation '");
                        s.append(target_variable.as_str());
                        s.append("'");
                        s
                    },
                }
            },
            RuntimeOperationParsingError::ObjectExtractionValidationFailed { target_variable, object_id, field_name, cause } => {
                let mut s = String::from_str("Object extraction validation failed for '");
                s.append(object_id.as_str());
                s.append(".");
                s.append(field_name.as_str());
                s.append("' in runtime operation '");
                s.append(target_variable.as_str());
                s.append("': ");
                s.append(cause.as_str());
                s
            },
            RuntimeOperationParsingError::VariableReferenceValidationFailed { target_variable, referenced_variable, cause } => {
                let mut s = String::from_str("Variable reference validation failed for '");
                s.append(referenced_variable.as_str());
                s.append("' in runtime operation '");
                s.append(target_variable.as_str());
                s.append("': ");
                s.append(cause.as_str());
                s
            },
            RuntimeOperationParsingError::ArithmeticOperatorValidationFailed { target_variable, operator, cause } => {
                let mut s = String::from_str("Arithmetic operator '");
                s.append(operator.as_str());
                s.append("' validation failed for runtime operation '");
                s.append(target_variable.as_str());
                s.append("': ");
                s.append(cause.as_str());
                s
            },
            RuntimeOperationParsingError::PatternSpecificationValidationFailed { target_variable, pattern, cause } => {
                let mut s = String::from_str("Pattern specification '");
                s.append(pattern.as_str());
                s.append("' validation failed for runtime operation '");
                s.append(target_variable.as_str());
                s.append("': ");
                s.append(cause.as_str());
                s
            },
            RuntimeOperationParsingError::DelimiterSpecificationValidationFailed { target_variable, delimiter, cause } => {
                let mut s = String::from_str("Delimiter specification '");
                s.append(delimiter.as_str());
                s.append("' validation failed for runtime operation '");
                s.append(target_variable.as_str());
                s.append("': ");
                s.append(cause.as_str());
                s
            },
            RuntimeOperationParsingError::PositionParameterValidationFailed { target_variable, parameter_type, value, cause } => {
                let mut s = String::from_str("Position parameter '");
                s.append(parameter_type.as_str());
                s.append("' with value ");
                s.append(i64_to_string(*value).as_str());
                s.append(" validation failed for runtime operation '");
                s.append(target_variable.as_str());
                s.append("': ");
                s.append(cause.as_str());
                s
            },
            RuntimeOperationParsingError::EmptyRuntimeOperation { target_variable } => {
                let mut s = String::from_str("Runtime operation '");
                s.append(target_variable.as_str());
                s.append("' has no parameters (empty operations not allowed)");
                s
            },
            RuntimeOperationParsingError::InvalidTargetVariableIdentifier { target_variable, cause } => {
                let mut s = String::from_str("Invalid target variable identifier '");
                s.append(target_variable.as_str());
                s.append("': ");
                s.append(cause.as_str());
                s
            },
            RuntimeOperationParsingError::MissingRequiredField { target_variable, missing_field } => {
                let mut s = String::from_str("Runtime operation '");
                s.append(target_variable.as_str());
                s.append("' missing required field '");
                s.append(missing_field.as_str());
                s.append("'");
                s
            },
            RuntimeOperationParsingError::LiteralValueParsingFailed { target_variable, parameter_index, literal_content, cause } => {
                let mut s = String::from_str("Failed to parse literal value '");
                s.append(literal_content.as_str());
                s.append("' at parameter ");
                s.append(usize_to_string(*parameter_index).as_str());
                s.append(" for runtime operation '");
                s.append(target_variable.as_str());
                s.append("': ");
                s.append(cause.as_str());
                s
            },
            RuntimeOperationParsingError::RuntimeOperationStructureValidationFailed { target_variable, expected_structure, actual_structure } => {
                let mut s = String::from_str("Runtime operation structure validation failed for '");
                s.append(target_variable.as_str());
                s.append("'. Expected: ");
                s.append(expected_structure.as_str());
                s.append(", Found: ");
                s.append(actual_structure.as_str());
                s
            },
            RuntimeOperationParsingError::ParameterTypeMismatch { target_variable, operation_type, parameter_index, expected_types, found_type } => {
                let mut s = String::from_str("Parameter type mismatch at index ");
                s.append(usize_to_string(*parameter_index).as_str());
                s.append(" for ");
                s.append(operation_type.debug_name());
                s.append(" operation '");
                s.append(target_variable.as_str());
                s.append("'. Expected: [");
                s.append(join_strings(expected_types, ", ").as_str());
                s.append("], Found: ");
                s.append(found_type.as_str());
                s
            },
            RuntimeOperationParsingError::DuplicateParameterType { target_variable, parameter_type, first_occurrence_index, second_occurrence_index } => {
                let mut s = String::from_str("Duplicate parameter type '");
                s.append(parameter_type.as_str());
                s.append("' in runtime operation '");
                s.append(target_variable.as_str());
                s.append("' at indices ");
                s.append(usize_to_string(*first_occurrence_index).as_str());
                s.append(" and ");
                s.append(usize_to_string(*second_occurrence_index).as_str());
                s.append(" (duplicates not allowed)");
                s
            },
            RuntimeOperationParsingError::ConcatOperationValidationFailed { target_variable, parameter_count, cause } => {
                let mut s = String::from_str("CONCAT operation validation failed for '");
                s.append(target_variable.as_str());
                s.append("' with ");
                s.append(usize_to_string(*parameter_count).as_str());
                s.append(" parameters: ");
                s.append(cause.as_str());
                s
            },
            RuntimeOperationParsingError::SplitOperationValidationFailed { target_variable, has_delimiter, cause } => {
                let mut s = String::from_str("SPLIT operation validation failed for '");
                s.append(target_variable.as_str());
                s.append("' (has delimiter: ");
                s.append((if *has_delimiter { "true" } else { "false" }));
                s.append("): ");
                s.append(cause.as_str());
                s
            },
            RuntimeOperationParsingError::SubstringOperationValidationFailed { target_variable, has_start, has_length, cause } => {
                let mut s = String::from_str("SUBSTRING operation validation failed for '");
                s.append(target_variable.as_str());
                s.append("' (has start: ");
                s.append((if *has_start { "true" } else { "false" }));
                s.append(", has length: ");
                s.append((if *has_length { "true" } else { "false" }));
                s.append("): ");
                s.append(cause.as_str());
                s
            },
            RuntimeOperationParsingError::RegexCaptureOperationValidationFailed { target_variable, has_pattern, cause } => {
                let mut s = String::from_str("REGEX_CAPTURE operation validation failed for '");
                s.append(target_variable.as_str());
                s.append("' (has pattern: ");
                s.append((if *has_pattern { "true" } else { "false" }));
                s.append("): ");
                s.append(cause.as_str());
                s
            },
            RuntimeOperationParsingError::ArithmeticOperationValidationFailed { target_variable, arithmetic_parameter_count, cause } => {
                let mut s = String::from_str("ARITHMETIC operation validation failed for '");
                s.append(target_variable.as_str());
                s.append("' with ");
                s.append(usize_to_string(*arithmetic_parameter_count).as_str());
                s.append(" arithmetic parameters: ");
                s.append(cause.as_str());
                s
            },
            RuntimeOperationParsingError::ExtractOperationValidationFailed { target_variable, has_object_extraction, cause } => {
                let mut s = String::from_str("EXTRACT operation validation failed for '");
                s.append(target_variable.as_str());
                s.append("' (has object extraction: ");
                s.append((if *has_object_extraction { "true" } else { "false" }));
                s.append("): ");
                s.append(cause.as_str());
                s
            },
            RuntimeOperationParsingError::RuntimeOperationConsistencyValidationFailed { target_variable, operation_type, inconsistency_reason } => {
                let mut s = String::from_str("Runtime operation consistency validation failed for ");
                s.append(operation_type.debug_name());
                s.append(" operation '");
                s.append(target_variable.as_str());
                s.append("': ");
                s.append(inconsistency_reason.as_str());
                s
            },
        }
    }
}

} // verus!
