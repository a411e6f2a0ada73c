//! Errors raised while parsing objects.

use vstd::prelude::*;
use crate::strings::{to_owned_string, join_strings, join_sep, usize_to_string, decimal};
use crate::types::common::{DataType, data_type_debug};

verus! {

/// Errors raised while parsing an object.
#[allow(inconsistent_fields)]
#[derive(Debug, Clone)]
pub enum ObjectResolutionError {
    /// Failed to parse object element from JSON
    ElementParsingFailed { object_id: String, element_index: usize, cause: String },
    /// Unknown object element type encountered
    UnknownElementType { object_id: String, element_type: String, available_keys: Vec<String> },
    /// Invalid field value format
    InvalidFieldValue { object_id: String, field_name: String, json_content: String },
    /// Parameter block parsing failed
    ParameterParsingFailed { object_id: String, data_type: DataType, cause: String },
    /// Select block parsing failed
    SelectParsingFailed { object_id: String, data_type: DataType, cause: String },
    /// Invalid behavior value
    InvalidBehaviorValue { object_id: String, behavior_value: String },
    /// Filter specification parsing failed
    FilterParsingFailed { object_id: String, cause: String },
    /// Invalid filter action
    InvalidFilterAction { object_id: String, action: String },
    /// Set reference validation failed
    SetReferenceValidationFailed { object_id: String, set_id: String, cause: String },
    /// Record check parsing failed
    RecordCheckParsingFailed { object_id: String, cause: String },
    /// Invalid operation in record field
    InvalidOperation { object_id: String, field_path: String, operation: String },
    /// Invalid entity check
    InvalidEntityCheck { object_id: String, field_path: String, entity_check: String },
    /// Module specification parsing failed
    ModuleParsingFailed { object_id: String, module_field: String, cause: String },
    /// Object has circular dependency
    CircularDependency { object_id: String, dependency_chain: Vec<String> },
    /// Object references undefined variable
    UndefinedVariableReference { object_id: String, variable_name: String },
    /// Type conversion failed during resolution
    TypeConversionFailed { object_id: String, field_name: String, from_type: String, to_type: DataType },
    /// Empty object definition (no elements)
    EmptyObjectDefinition { object_id: String },
    /// CTN local object extraction failed
    CtnObjectExtractionFailed { ctn_node_id: usize, ctn_type: String, cause: String },
    /// Multiple local objects in single CTN (violation of ICS rules)
    MultipleCtnObjects { ctn_node_id: usize, ctn_type: String, first_object: String, second_object: String },
    /// Invalid data type specification
    InvalidDataType { object_id: String, element_type: String, data_type: String },
    /// Field path parsing failed for record operations
    FieldPathParsingFailed { object_id: String, field_path: String, cause: String },
}

/// The message that describes an error.
pub open spec fn object_resolution_error_message(e: ObjectResolutionError) -> Seq<char> {
    match e {
        ObjectResolutionError::ElementParsingFailed { object_id, element_index, cause } => "Failed to parse element "@ + decimal(element_index as nat) + " in object '"@ + object_id@ + "': "@ + cause@,
        ObjectResolutionError::UnknownElementType { object_id, element_type, available_keys } => "Unknown element type '"@ + element_type@ + "' in object '"@ + object_id@ + "'. Available: ["@ + join_sep(available_keys@.map_values(|x: String| x@), ", "@) + "]"@,
        ObjectResolutionError::InvalidFieldValue { object_id, field_name, json_content } => "Invalid field value for '"@ + field_name@ + "' in object '"@ + object_id@ + "': "@ + json_content@,
        ObjectResolutionError::ParameterParsingFailed { object_id, data_type, cause } => "Failed to parse parameter block ("@ + data_type_debug(data_type) + ") in object '"@ + object_id@ + "': "@ + cause@,
        ObjectResolutionError::SelectParsingFailed { object_id, data_type, cause } => "Failed to parse select block ("@ + data_type_debug(data_type) + ") in object '"@ + object_id@ + "': "@ + cause@,
        ObjectResolutionError::InvalidBehaviorValue { object_id, behavior_value } => "Invalid behavior value '"@ + behavior_value@ + "' in object '"@ + object_id@ + "'"@,
        ObjectResolutionError::FilterParsingFailed { object_id, cause } => "Failed to parse filter in object '"@ + object_id@ + "': "@ + cause@,
        ObjectResolutionError::InvalidFilterAction { object_id, action } => "Invalid filter action '"@ + action@ + "' in object '"@ + object_id@ + "'"@,
        ObjectResolutionError::SetReferenceValidationFailed { object_id, set_id, cause } => "Set reference validation failed for '"@ + set_id@ + "' in object '"@ + object_id@ + "': "@ + cause@,
        ObjectResolutionError::RecordCheckParsingFailed { object_id, cause } => "Failed to parse record check in object '"@ + object_id@ + "': "@ + cause@,
        ObjectResolutionError::InvalidOperation { object_id, field_path, operation } => "Invalid operation '"@ + operation@ + "' for field '"@ + field_path@ + "' in object '"@ + object_id@ + "'"@,
        ObjectResolutionError::InvalidEntityCheck { object_id, field_path, entity_check } => "Invalid entity check '"@ + entity_check@ + "' for field '"@ + field_path@ + "' in object '"@ + object_id@ + "'"@,
        ObjectResolutionError::ModuleParsingFailed { object_id, module_field, cause } => "Failed to parse module field '"@ + module_field@ + "' in object '"@ + object_id@ + "': "@ + cause@,
        ObjectResolutionError::CircularDependency { object_id, dependency_chain } => "Circular dependency detected for object '"@ + object_id@ + "': "@ + join_sep(dependency_chain@.map_values(|x: String| x@), " -> "@),
        ObjectResolutionError::UndefinedVariableReference { object_id, variable_name } => "Object '"@ + object_id@ + "' references undefined variable '"@ + variable_name@ + "'"@,
        ObjectResolutionError::TypeConversionFailed { object_id, field_name, from_type, to_type } => "Type conversion failed for field '"@ + field_name@ + "' in object '"@ + object_id@ + "': "@ + from_type@ + " -> "@ + data_type_debug(to_type),
        ObjectResolutionError::EmptyObjectDefinition { object_id } => "Object '"@ + object_id@ + "' has no elements (empty object definitions not allowed)"@,
        ObjectResolutionError::CtnObjectExtractionFailed { ctn_node_id, ctn_type, cause } => "Failed to extract local object from CTN "@ + decimal(ctn_node_id as nat) + " ("@ + ctn_type@ + "): "@ + cause@,
        ObjectResolutionError::MultipleCtnObjects { ctn_node_id, ctn_type, first_object, second_object } => "CTN "@ + decimal(ctn_node_id as nat) + " ("@ + ctn_type@ + ") has multiple objects: '"@ + first_object@ + "' and '"@ + second_object@ + "' (max 1 allowed)"@,
        ObjectResolutionError::InvalidDataType { object_id, element_type, data_type } => "Invalid data type '"@ + data_type@ + "' for "@ + element_type@ + " element in object '"@ + object_id@ + "'"@,
        ObjectResolutionError::FieldPathParsingFailed { object_id, field_path, cause } => "Failed to parse field path '"@ + field_path@ + "' in object '"@ + object_id@ + "': "@ + cause@,
    }
}

impl ObjectResolutionError {
    /// Create element parsing error
    pub fn element_parsing_failed(object_id: &str, element_index: usize, cause: &str) -> (res: ObjectResolutionError)
        ensures
            res matches ObjectResolutionError::ElementParsingFailed { object_id: b_object_id, element_index: b_element_index, cause: b_cause }
                && b_object_id@ == object_id@
                && b_element_index == element_index
                && b_cause@ == cause@,
    {
        ObjectResolutionError::ElementParsingFailed { object_id: String::from_str(object_id), element_index: element_index, cause: String::from_str(cause) }
    }

    /// Create unknown element type error
    pub fn unknown_element_type(object_id: &str, element_type: &str, available_keys: Vec<String>) -> (res: ObjectResolutionError)
        ensures
            res matches ObjectResolutionError::UnknownElementType { object_id: b_object_id, element_type: b_element_type, available_keys: b_available_keys }
                && b_object_id@ == object_id@
                && b_element_type@ == element_type@
                && b_available_keys == available_keys,
    {
        ObjectResolutionError::UnknownElementType { object_id: String::from_str(object_id), element_type: String::from_str(element_type), available_keys: available_keys }
    }

    /// Create invalid field value error
    pub fn invalid_field_value(object_id: &str, field_name: &str, json_content: &str) -> (res: ObjectResolutionError)
        ensures
            res matches ObjectResolutionError::InvalidFieldValue { object_id: b_object_id, field_name: b_field_name, json_content: b_json_content }
                && b_object_id@ == object_id@
                && b_field_name@ == field_name@
                && b_json_content@ == json_content@,
    {
        ObjectResolutionError::InvalidFieldValue { object_id: String::from_str(object_id), field_name: String::from_str(field_name), json_content: String::from_str(json_content) }
    }

    /// Create CTN object extraction error
    pub fn ctn_object_extraction_failed(ctn_node_id: usize, ctn_type: &str, cause: &str) -> (res: ObjectResolutionError)
        ensures
            res matches ObjectResolutionError::CtnObjectExtractionFailed { ctn_node_id: b_ctn_node_id, ctn_type: b_ctn_type, cause: b_cause }
                && b_ctn_node_id == ctn_node_id
                && b_ctn_type@ == ctn_type@
                && b_cause@ == cause@,
    {
        ObjectResolutionError::CtnObjectExtractionFailed { ctn_node_id: ctn_node_id, ctn_type: String::from_str(ctn_type), cause: String::from_str(cause) }
    }

    /// Create multiple CTN objects error
    pub fn multiple_ctn_objects(ctn_node_id: usize, ctn_type: &str, first_object: &str, second_object: &str) -> (res: ObjectResolutionError)
        ensures
            res matches ObjectResolutionError::MultipleCtnObjects { ctn_node_id: b_ctn_node_id, ctn_type: b_ctn_type, first_object: b_first_object, second_object: b_second_object }
                && b_ctn_node_id == ctn_node_id
                && b_ctn_type@ == ctn_type@
                && b_first_object@ == first_object@
                && b_second_object@ == second_object@,
    {
        ObjectResolutionError::MultipleCtnObjects { ctn_node_id: ctn_node_id, ctn_type: String::from_str(ctn_type), first_object: String::from_str(first_object), second_object: String::from_str(second_object) }
    }

    /// Create empty object definition error
    pub fn empty_object_definition(object_id: &str) -> (res: ObjectResolutionError)
        ensures
            res matches ObjectResolutionError::EmptyObjectDefinition { object_id: b_object_id }
                && b_object_id@ == object_id@,
    {
        ObjectResolutionError::EmptyObjectDefinition { object_id: String::from_str(object_id) }
    }

    /// Create undefined variable reference error
    pub fn undefined_variable_reference(object_id: &str, variable_name: &str) -> (res: ObjectResolutionError)
        ensures
            res matches ObjectResolutionError::UndefinedVariableReference { object_id: b_object_id, variable_name: b_variable_name }
                && b_object_id@ == object_id@
                && b_variable_name@ == variable_name@,
    {
        ObjectResolutionError::UndefinedVariableReference { object_id: String::from_str(object_id), variable_name: String::from_str(variable_name) }
    }

    /// The message that describes this error.
    pub fn to_string(&self) -> (res: String)
        ensures
            res@ == object_resolution_error_message(*self),
    {
        match self {
            ObjectResolutionError::ElementParsingFailed { object_id, element_index, cause } => {
                let mut s = String::from_str("Failed to parse element ");
                s.append(usize_to_string(*element_index).as_str());
                s.append(" in object '");
                s.append(object_id.as_str());
                s.append("': ");
                s.append(cause.as_str());
                s
            },
            ObjectResolutionError::UnknownElementType { object_id, element_type, available_keys } => {
                let mut s = String::from_str("Unknown element type '");
                s.append(element_type.as_str());
                s.append("' in object '");
                s.append(object_id.as_str());
                s.append("'. Available: [");
                s.append(join_strings(available_keys, ", ").as_str());
                s.append("]");
                s
            },
            ObjectResolutionError::InvalidFieldValue { object_id, field_name, json_content } => {
                let mut s = String::from_str("Invalid field value for '");
                s.append(field_name.as_str());
                s.append("' in object '");
                s.append(object_id.as_str());
                s.append("': ");
                s.append(json_content.as_str());
                s
            },
            ObjectResolutionError::ParameterParsingFailed { object_id, data_type, cause } => {
                let mut s = String::from_str("Failed to parse parameter block (");
                s.append(data_type.debug_name());
                s.append(") in object '");
                s.append(object_id.as_str());
                s.append("': ");
                s.append(cause.as_str());
                s
            },
            ObjectResolutionError::SelectParsingFailed { object_id, data_type, cause } => {
                let mut s = String::from_str("Failed to parse select block (");
                s.append(data_type.debug_name());
                s.append(") in object '");
                s.append(object_id.as_str());
                s.append("': ");
                s.append(cause.as_str());
                s
            },
            ObjectResolutionError::InvalidBehaviorValue { object_id, behavior_value } => {
                let mut s = String::from_str("Invalid behavior value '");
                s.append(behavior_value.as_str());
                s.append("' in object '");
                s.append(object_id.as_str());
                s.append("'");
                s
            },
            ObjectResolutionError::FilterParsingFailed { object_id, cause } => {
                let mut s = String::from_str("Failed to parse filter in object '");
                s.append(object_id.as_str());
                s.append("': ");
                s.append(cause.as_str());
                s
            },
            ObjectResolutionError::InvalidFilterAction { object_id, action } => {
                let mut s = String::from_str("Invalid filter action '");
                s.append(action.as_str());
                s.append("' in object '");
                s.append(object_id.as_str());
                s.append("'");
                s
            },
            ObjectResolutionError::SetReferenceValidationFailed { object_id, set_id, cause } => {
                let mut s = String::from_str("Set reference validation failed for '");
                s.append(set_id.as_str());
                s.append("' in object '");
                s.append(object_id.as_str());
                s.append("': ");
                s.append(cause.as_str());
                s
            },
            ObjectResolutionError::RecordCheckParsingFailed { object_id, cause } => {
                let mut s = String::from_str("Failed to parse record check in object '");
                s.append(object_id.as_str());
                s.append("': ");
                s.append(cause.as_str());
                s
            },
            ObjectResolutionError::InvalidOperation { object_id, field_path, operation } => {
                let mut s = String::from_str("Invalid operation '");
                s.append(operation.as_str());
                s.append("' for field '");
                s.append(field_path.as_str());
                s.append("' in object '");
                s.append(object_id.as_str());
                s.append("'");
                s
            },
            ObjectResolutionError::InvalidEntityCheck { object_id, field_path, entity_check } => {
                let mut s = String::from_str("Invalid entity check '");
                s.append(entity_check.as_str());
                s.append("' for field '");
                s.append(field_path.as_str());
                s.append("' in object '");
                s.append(object_id.as_str());
                s.append("'");
                s
            },
            ObjectResolutionError::ModuleParsingFailed { object_id, module_field, cause } => {
                let mut s = String::from_str("Failed to parse module field '");
                s.append(module_field.as_str());
                s.append("' in object '");
                s.append(object_id.as_str());
                s.append("': ");
                s.append(cause.as_str());
                s
            },
            ObjectResolutionError::CircularDependency { object_id, dependency_chain } => {
                let mut s = String::from_str("Circular dependency detected for object '");
                s.append(object_id.as_str());
                s.append("': ");
                s.append(join_strings(dependency_chain, " -> ").as_str());
                s
            },
            ObjectResolutionError::UndefinedVariableReference { object_id, variable_name } => {
                let mut s = String::from_str("Object '");
                s.append(object_id.as_str());
                s.append("' references undefined variable '");
                s.append(variable_name.as_str());
                s.append("'");
                s
            },
            ObjectResolutionError::TypeConversionFailed { object_id, field_name, from_type, to_type } => {
                let mut s = String::from_str("Type conversion failed for field '");
                s.append(field_name.as_str());
                s.append("' in object '");
                s.append(object_id.as_str());
                s.append("': ");
                s.append(from_type.as_str());
                s.append(" -> ");
                s.append(to_type.debug_name());
                s
            },
            ObjectResolutionError::EmptyObjectDefinition { object_id } => {
                let mut s = String::from_str("Object '");
                s.append(object_id.as_str());
                s.append("' has no elements (empty object definitions not allowed)");
                s
            },
            ObjectResolutionError::CtnObjectExtractionFailed { ctn_node_id, ctn_type, cause } => {
                let mut s = String::from_str("Failed to extract local object from CTN ");
                s.append(usize_to_string(*ctn_node_id).as_str());
                s.append(" (");
                s.append(ctn_type.as_str());
                s.append("): ");
                s.append(cause.as_str());
                s
            },
            ObjectResolutionError::MultipleCtnObjects { ctn_node_id, ctn_type, first_object, second_object } => {
                let mut s = String::from_str("CTN ");
                s.append(usize_to_string(*ctn_node_id).as_str());
                s.append(" (");
                s.append(ctn_type.as_str());
                s.append(") has multiple objects: '");
                s.append(first_object.as_str());
                s.append("' and '");
                s.append(second_object.as_str());
                s.append("' (max 1 allowed)");
                s
            },
            ObjectResolutionError::InvalidDataType { object_id, element_type, data_type } => {
                let mut s = String::from_str("Invalid data type '");
                s.append(data_type.as_str());
                s.append("' for ");
                s.append(element_type.as_str());
                s.append(" element in object '");
                s.append(object_id.as_str());
                s.append("'");
                s
            },
            ObjectResolutionError::FieldPathParsingFailed { object_id, field_path, cause } => {
                let mut s = String::from_str("Failed to parse field path '");
                s.append(field_path.as_str());
                s.append("' in object '");
                s.append(object_id.as_str());
                s.append("': ");
                s.append(cause.as_str());
                s
            },
        }
    }
}

} // verus!
