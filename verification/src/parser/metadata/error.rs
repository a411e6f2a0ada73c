//! Errors raised while parsing metadata.

use vstd::prelude::*;
use crate::strings::{to_owned_string, join_strings, join_sep, usize_to_string, decimal};

verus! {

/// Errors raised while parsing or validating a META block.
#[allow(inconsistent_fields)]
#[derive(Debug, Clone)]
pub enum MetadataParsingError {
    /// Metadata block missing required 'fields' object
    MissingFieldsObject,
    /// Metadata fields must be an object, not another type
    InvalidFieldsType { actual_type: String },
    /// Metadata field key cannot be empty or whitespace only
    EmptyFieldKey { field_key: String },
    /// Metadata field value must be a string
    InvalidFieldValueType { field_key: String, actual_type: String },
    /// Reserved field name cannot be used in metadata
    ReservedFieldName { field_name: String },
    /// Field name exceeds maximum allowed length
    FieldNameTooLong { field_name: String, actual_length: usize, max_length: usize },
    /// Field value exceeds maximum allowed length
    FieldValueTooLong { field_name: String, actual_length: usize, max_length: usize },
    /// Metadata contains duplicate field names (case-sensitive)
    DuplicateFieldName { field_name: String },
    /// Metadata validation failed for business rules
    ValidationFailed { rule: String, cause: String },
    /// JSON structure is invalid for metadata parsing
    InvalidJsonStructure { cause: String },
    /// Required field for ICS scan output is missing
    MissingRequiredField { field_name: String, required_for: String },
    /// Required field for ICS scan output is empty
    EmptyRequiredField { field_name: String, required_for: String },
    /// Multiple required fields are missing for ICS scan output
    MultipleRequiredFieldsMissing { missing_fields: Vec<String>, required_for: String },
    /// Multiple required fields are empty for ICS scan output
    MultipleRequiredFieldsEmpty { empty_fields: Vec<String>, required_for: String },
    /// ICS scan output validation failed (combination of missing and empty fields)
    IcsScanOutputValidationFailed { missing_fields: Vec<String>, empty_fields: Vec<String> },
    /// Invalid ics_scan_id format
    InvalidIcsScanIdFormat { scan_id: String, format_requirements: String },
    /// Invalid criticality level value
    InvalidCriticalityLevel { criticality: String, valid_levels: Vec<String> },
    /// Invalid tags format
    InvalidTagsFormat { tags: String, format_requirements: String },
    /// Invalid control framework value
    InvalidControlFramework { framework: String, validation_error: String },
    /// Invalid control value
    InvalidControl { control: String, validation_error: String },
    /// Invalid platform value
    InvalidPlatform { platform: String, validation_error: String },
    /// Field value validation failed for ICS scan output
    FieldValueValidationFailed { field_name: String, field_value: String, validation_error: String },
}

/// The message that describes an error.
pub open spec fn metadata_parsing_error_message(e: MetadataParsingError) -> Seq<char> {
    match e {
        MetadataParsingError::MissingFieldsObject => "Metadata block missing required 'fields' object"@,
        MetadataParsingError::InvalidFieldsType { actual_type } => "Metadata 'fields' must be an object, found "@ + actual_type@,
        MetadataParsingError::EmptyFieldKey { field_key } => "Metadata field key cannot be empty or whitespace only: '"@ + field_key@ + "'"@,
        MetadataParsingError::InvalidFieldValueType { field_key, actual_type } => "Metadata field '"@ + field_key@ + "' value must be a string, found "@ + actual_type@,
        MetadataParsingError::ReservedFieldName { field_name } => "Metadata cannot use reserved field name '"@ + field_name@ + "'"@,
        MetadataParsingError::FieldNameTooLong { field_name, actual_length, max_length } => "Metadata field name '"@ + field_name@ + "' is "@ + decimal(actual_length as nat) + " characters long, maximum allowed is "@ + decimal(max_length as nat),
        MetadataParsingError::FieldValueTooLong { field_name, actual_length, max_length } => "Metadata field '"@ + field_name@ + "' value is "@ + decimal(actual_length as nat) + " characters long, maximum allowed is "@ + decimal(max_length as nat),
        MetadataParsingError::DuplicateFieldName { field_name } => "Metadata contains duplicate field name '"@ + field_name@ + "'"@,
        MetadataParsingError::ValidationFailed { rule, cause } => "Metadata validation failed for rule '"@ + rule@ + "': "@ + cause@,
        MetadataParsingError::InvalidJsonStructure { cause } => "Invalid JSON structure for metadata: "@ + cause@,
        MetadataParsingError::MissingRequiredField { field_name, required_for } => "Required metadata field '"@ + field_name@ + "' is missing (required for "@ + required_for@ + ")"@,
        MetadataParsingError::EmptyRequiredField { field_name, required_for } => "Required metadata field '"@ + field_name@ + "' is empty (required for "@ + required_for@ + ")"@,
        MetadataParsingError::MultipleRequiredFieldsMissing { missing_fields, required_for } => "Multiple required metadata fields are missing for "@ + required_for@ + ": ["@ + join_sep(missing_fields@.map_values(|x: String| x@), ", "@) + "]"@,
        MetadataParsingError::MultipleRequiredFieldsEmpty { empty_fields, required_for } => "Multiple required metadata fields are empty for "@ + required_for@ + ": ["@ + join_sep(empty_fields@.map_values(|x: String| x@), ", "@) + "]"@,
        MetadataParsingError::IcsScanOutputValidationFailed { missing_fields, empty_fields } => "ICS scan output validation failed:"@
            + (if missing_fields@.len() > 0 { " Missing fields: ["@ + join_sep(missing_fields@.map_values(|x: String| x@), ", "@) + "]"@ } else { Seq::empty() })
            + (if empty_fields@.len() > 0 { " Empty fields: ["@ + join_sep(empty_fields@.map_values(|x: String| x@), ", "@) + "]"@ } else { Seq::empty() }),
        MetadataParsingError::InvalidIcsScanIdFormat { scan_id, format_requirements } => "Invalid ics_scan_id format '"@ + scan_id@ + "': "@ + format_requirements@,
        MetadataParsingError::InvalidCriticalityLevel { criticality, valid_levels } => "Invalid criticality level '"@ + criticality@ + "'. Valid levels: ["@ + join_sep(valid_levels@.map_values(|x: String| x@), ", "@) + "]"@,
        MetadataParsingError::InvalidTagsFormat { tags, format_requirements } => "Invalid tags format '"@ + tags@ + "': "@ + format_requirements@,
        MetadataParsingError::InvalidControlFramework { framework, validation_error } => "Invalid control framework '"@ + framework@ + "': "@ + validation_error@,
        MetadataParsingError::InvalidControl { control, validation_error } => "Invalid control '"@ + control@ + "': "@ + validation_error@,
        MetadataParsingError::InvalidPlatform { platform, validation_error } => "Invalid platform '"@ + platform@ + "': "@ + validation_error@,
        MetadataParsingError::FieldValueValidationFailed { field_name, field_value, validation_error } => "Field value validation failed for '"@ + field_name@ + "' (value: '"@ + field_value@ + "'): "@ + validation_error@,
    }
}

impl MetadataParsingError {
    /// Create missing fields object error
    pub fn missing_fields_object() -> (res: MetadataParsingError)
        ensures
            res is MissingFieldsObject,
    {
        MetadataParsingError::MissingFieldsObject
    }

    /// Create invalid fields type error
    pub fn invalid_fields_type(actual_type: &str) -> (res: MetadataParsingError)
        ensures
            res matches MetadataParsingError::InvalidFieldsType { actual_type: b_actual_type }
                && b_actual_type@ == actual_type@,
    {
        MetadataParsingError::InvalidFieldsType { actual_type: String::from_str(actual_type) }
    }

    /// Create empty field key error
    pub fn empty_field_key(field_key: &str) -> (res: MetadataParsingError)
        ensures
            res matches MetadataParsingError::EmptyFieldKey { field_key: b_field_key }
                && b_field_key@ == field_key@,
    {
        MetadataParsingError::EmptyFieldKey { field_key: String::from_str(field_key) }
    }

    /// Create invalid field value type error
    pub fn invalid_field_value_type(field_key: &str, actual_type: &str) -> (res: MetadataParsingError)
        ensures
            res matches MetadataParsingError::InvalidFieldValueType { field_key: b_field_key, actual_type: b_actual_type }
                && b_field_key@ == field_key@
                && b_actual_type@ == actual_type@,
    {
        MetadataParsingError::InvalidFieldValueType { field_key: String::from_str(field_key), actual_type: String::from_str(actual_type) }
    }

    /// Create reserved field name error
    pub fn reserved_field_name(field_name: &str) -> (res: MetadataParsingError)
        ensures
            res matches MetadataParsingError::ReservedFieldName { field_name: b_field_name }
                && b_field_name@ == field_name@,
    {
        MetadataParsingError::ReservedFieldName { field_name: String::from_str(field_name) }
    }

    /// Create field name too long error
    pub fn field_name_too_long(field_name: &str, actual_length: usize, max_length: usize) -> (res: MetadataParsingError)
        ensures
            res matches MetadataParsingError::FieldNameTooLong { field_name: b_field_name, actual_length: b_actual_length, max_length: b_max_length }
                && b_field_name@ == field_name@
                && b_actual_length == actual_length
                && b_max_length == max_length,
    {
        MetadataParsingError::FieldNameTooLong { field_name: String::from_str(field_name), actual_length: actual_length, max_length: max_length }
    }

    /// Create field value too long error
    pub fn field_value_too_long(field_name: &str, actual_length: usize, max_length: usize) -> (res: MetadataParsingError)
        ensures
            res matches MetadataParsingError::FieldValueTooLong { field_name: b_field_name, actual_length: b_actual_length, max_length: b_max_length }
                && b_field_name@ == field_name@
                && b_actual_length == actual_length
                && b_max_length == max_length,
    {
        MetadataParsingError::FieldValueTooLong { field_name: String::from_str(field_name), actual_length: actual_length, max_length: max_length }
    }

    /// Create duplicate field name error
    pub fn duplicate_field_name(field_name: &str) -> (res: MetadataParsingError)
        ensures
            res matches MetadataParsingError::DuplicateFieldName { field_name: b_field_name }
                && b_field_name@ == field_name@,
    {
        MetadataParsingError::DuplicateFieldName { field_name: String::from_str(field_name) }
    }

    /// Create validation failed error
    pub fn validation_failed(rule: &str, cause: &str) -> (res: MetadataParsingError)
        ensures
            res matches MetadataParsingError::ValidationFailed { rule: b_rule, cause: b_cause }
                && b_rule@ == rule@
                && b_cause@ == cause@,
    {
        MetadataParsingError::ValidationFailed { rule: String::from_str(rule), cause: String::from_str(cause) }
    }

    /// Create invalid JSON structure error
    pub fn invalid_json_structure(cause: &str) -> (res: MetadataParsingError)
        ensures
            res matches MetadataParsingError::InvalidJsonStructure { cause: b_cause }
                && b_cause@ == cause@,
    {
        MetadataParsingError::InvalidJsonStructure { cause: String::from_str(cause) }
    }

    /// Create missing required field error
    pub fn missing_required_field(field_name: &str, required_for: &str) -> (res: MetadataParsingError)
        ensures
            res matches MetadataParsingError::MissingRequiredField { field_name: b_field_name, required_for: b_required_for }
                && b_field_name@ == field_name@
                && b_required_for@ == required_for@,
    {
        MetadataParsingError::MissingRequiredField { field_name: String::from_str(field_name), required_for: String::from_str(required_for) }
    }

    /// Create empty required field error
    pub fn empty_required_field(field_name: &str, required_for: &str) -> (res: MetadataParsingError)
        ensures
            res matches MetadataParsingError::EmptyRequiredField { field_name: b_field_name, required_for: b_required_for }
                && b_field_name@ == field_name@
                && b_required_for@ == required_for@,
    {
        MetadataParsingError::EmptyRequiredField { field_name: String::from_str(field_name), required_for: String::from_str(required_for) }
    }

    /// Create multiple required fields missing error
    pub fn multiple_required_fields_missing(missing_fields: Vec<String>, required_for: &str) -> (res: MetadataParsingError)
        ensures
            res matches MetadataParsingError::MultipleRequiredFieldsMissing { missing_fields: b_missing_fields, required_for: b_required_for }
                && b_missing_fields == missing_fields
                && b_required_for@ == required_for@,
    {
        MetadataParsingError::MultipleRequiredFieldsMissing { missing_fields: missing_fields, required_for: String::from_str(required_for) }
    }

    /// Create multiple required fields empty error
    pub fn multiple_required_fields_empty(empty_fields: Vec<String>, required_for: &str) -> (res: MetadataParsingError)
        ensures
            res matches MetadataParsingError::MultipleRequiredFieldsEmpty { empty_fields: b_empty_fields, required_for: b_required_for }
                && b_empty_fields == empty_fields
                && b_required_for@ == required_for@,
    {
        MetadataParsingError::MultipleRequiredFieldsEmpty { empty_fields: empty_fields, required_for: String::from_str(required_for) }
    }

    /// Create ICS scan output validation failed error
    pub fn ics_scan_output_validation_failed(missing_fields: Vec<String>, empty_fields: Vec<String>) -> (res: MetadataParsingError)
        ensures
            res matches MetadataParsingError::IcsScanOutputValidationFailed { missing_fields: b_missing_fields, empty_fields: b_empty_fields }
                && b_missing_fields == missing_fields
                && b_empty_fields == empty_fields,
    {
        MetadataParsingError::IcsScanOutputValidationFailed { missing_fields: missing_fields, empty_fields: empty_fields }
    }

    /// Create invalid ics_scan_id format error
    pub fn invalid_ics_scan_id_format(scan_id: &str, format_requirements: &str) -> (res: MetadataParsingError)
        ensures
            res matches MetadataParsingError::InvalidIcsScanIdFormat { scan_id: b_scan_id, format_requirements: b_format_requirements }
                && b_scan_id@ == scan_id@
                && b_format_requirements@ == format_requirements@,
    {
        MetadataParsingError::InvalidIcsScanIdFormat { scan_id: String::from_str(scan_id), format_requirements: String::from_str(format_requirements) }
    }

    /// Create invalid criticality level error
    pub fn invalid_criticality_level(criticality: &str, valid_levels: Vec<String>) -> (res: MetadataParsingError)
        ensures
            res matches MetadataParsingError::InvalidCriticalityLevel { criticality: b_criticality, valid_levels: b_valid_levels }
                && b_criticality@ == criticality@
                && b_valid_levels == valid_levels,
    {
        MetadataParsingError::InvalidCriticalityLevel { criticality: String::from_str(criticality), valid_levels: valid_levels }
    }

    /// Create invalid tags format error
    pub fn invalid_tags_format(tags: &str, format_requirements: &str) -> (res: MetadataParsingError)
        ensures
            res matches MetadataParsingError::InvalidTagsFormat { tags: b_tags, format_requirements: b_format_requirements }
                && b_tags@ == tags@
                && b_format_requirements@ == format_requirements@,
    {
        MetadataParsingError::InvalidTagsFormat { tags: String::from_str(tags), format_requirements: String::from_str(format_requirements) }
    }

    /// Create field value validation failed error
    pub fn field_value_validation_failed(field_name: &str, field_value: &str, validation_error: &str) -> (res: MetadataParsingError)
        ensures
            res matches MetadataParsingError::FieldValueValidationFailed { field_name: b_field_name, field_value: b_field_value, validation_error: b_validation_error }
                && b_field_name@ == field_name@
                && b_field_value@ == field_value@
                && b_validation_error@ == validation_error@,
    {
        MetadataParsingError::FieldValueValidationFailed { field_name: String::from_str(field_name), field_value: String::from_str(field_value), validation_error: String::from_str(validation_error) }
    }

    /// The message that describes this error.
    pub fn to_string(&self) -> (res: String)
        ensures
            res@ == metadata_parsing_error_message(*self),
    {
        match self {
            MetadataParsingError::MissingFieldsObject => {
                let mut s = String::from_str("Metadata block missing required 'fields' object");
                s
            },
            MetadataParsingError::InvalidFieldsType { actual_type } => {
                let mut s = String::from_str("Metadata 'fields' must be an object, found ");
                s.append(actual_type.as_str());
                s
            },
            MetadataParsingError::EmptyFieldKey { field_key } => {
                let mut s = String::from_str("Metadata field key cannot be empty or whitespace only: '");
                s.append(field_key.as_str());
                s.append("'");
                s
            },
            MetadataParsingError::InvalidFieldValueType { field_key, actual_type } => {
                let mut s = String::from_str("Metadata field '");
                s.append(field_key.as_str());
                s.append("' value must be a string, found ");
                s.append(actual_type.as_str());
                s
            },
            MetadataParsingError::ReservedFieldName { field_name } => {
                let mut s = String::from_str("Metadata cannot use reserved field name '");
                s.append(field_name.as_str());
                s.append("'");
                s
            },
            MetadataParsingError::FieldNameTooLong { field_name, actual_length, max_length } => {
                let mut s = String::from_str("Metadata field name '");
                s.append(field_name.as_str());
                s.append("' is ");
                s.append(usize_to_string(*actual_length).as_str());
                s.append(" characters long, maximum allowed is ");
                s.append(usize_to_string(*max_length).as_str());
                s
            },
            MetadataParsingError::FieldValueTooLong { field_name, actual_length, max_length } => {
                let mut s = String::from_str("Metadata field '");
                s.append(field_name.as_str());
                s.append("' value is ");
                s.append(usize_to_string(*actual_length).as_str());
                s.append(" characters long, maximum allowed is ");
                s.append(usize_to_string(*max_length).as_str());
                s
            },
            MetadataParsingError::DuplicateFieldName { field_name } => {
                let mut s = String::from_str("Metadata contains duplicate field name '");
                s.append(field_name.as_str());
                s.append("'");
                s
            },
            MetadataParsingError::ValidationFailed { rule, cause } => {
                let mut s = String::from_str("Metadata validation failed for rule '");
                s.append(rule.as_str());
                s.append("': ");
                s.append(cause.as_str());
                s
            },
            MetadataParsingError::InvalidJsonStructure { cause } => {
                let mut s = String::from_str("Invalid JSON structure for metadata: ");
                s.append(cause.as_str());
                s
            },
            MetadataParsingError::MissingRequiredField { field_name, required_for } => {
                let mut s = String::from_str("Required metadata field '");
                s.append(field_name.as_str());
                s.append("' is missing (required for ");
                s.append(required_for.as_str());
                s.append(")");
                s
            },
            MetadataParsingError::EmptyRequiredField { field_name, required_for } => {
                let mut s = String::from_str("Required metadata field '");
                s.append(field_name.as_str());
                s.append("' is empty (required for ");
                s.append(required_for.as_str());
                s.append(")");
                s
            },
            MetadataParsingError::MultipleRequiredFieldsMissing { missing_fields, required_for } => {
                let mut s = String::from_str("Multiple required metadata fields are missing for ");
                s.append(required_for.as_str());
                s.append(": [");
                s.append(join_strings(missing_fields, ", ").as_str());
                s.append("]");
                s
            },
            MetadataParsingError::MultipleRequiredFieldsEmpty { empty_fields, required_for } => {
                let mut s = String::from_str("Multiple required metadata fields are empty for ");
                s.append(required_for.as_str());
                s.append(": [");
                s.append(join_strings(empty_fields, ", ").as_str());
                s.append("]");
                s
            },
            MetadataParsingError::IcsScanOutputValidationFailed { missing_fields, empty_fields } => {
                let mut s = String::from_str("ICS scan output validation failed:");
                let ghost s0 = s@;
                if missing_fields.len() > 0 {
                    s.append(" Missing fields: [");
                    s.append(join_strings(missing_fields, ", ").as_str());
                    s.append("]");
                }
                let ghost s1 = s@;
                if empty_fields.len() > 0 {
                    s.append(" Empty fields: [");
                    s.append(join_strings(empty_fields, ", ").as_str());
                    s.append("]");
                }
                proof {
                    let m = if missing_fields@.len() > 0 { " Missing fields: ["@ + join_sep(missing_fields@.map_values(|x: String| x@), ", "@) + "]"@ } else { Seq::<char>::empty() };
                    let e = if empty_fields@.len() > 0 { " Empty fields: ["@ + join_sep(empty_fields@.map_values(|x: String| x@), ", "@) + "]"@ } else { Seq::<char>::empty() };
                    assert(s1 =~= s0 + m);
                    assert(s@ =~= s0 + m + e);
                }
                s
            },
            MetadataParsingError::InvalidIcsScanIdFormat { scan_id, format_requirements } => {
                let mut s = String::from_str("Invalid ics_scan_id format '");
                s.append(scan_id.as_str());
                s.append("': ");
                s.append(format_requirements.as_str());
                s
            },
            MetadataParsingError::InvalidCriticalityLevel { criticality, valid_levels } => {
                let mut s = String::from_str("Invalid criticality level '");
                s.append(criticality.as_str());
                s.append("'. Valid levels: [");
                s.append(join_strings(valid_levels, ", ").as_str());
                s.append("]");
                s
            },
            MetadataParsingError::InvalidTagsFormat { tags, format_requirements } => {
                let mut s = String::from_str("Invalid tags format '");
                s.append(tags.as_str());
                s.append("': ");
                s.append(format_requirements.as_str());
                s
            },
            MetadataParsingError::InvalidControlFramework { framework, validation_error } => {
                let mut s = String::from_str("Invalid control framework '");
                s.append(framework.as_str());
                s.append("': ");
                s.append(validation_error.as_str());
                s
            },
            MetadataParsingError::InvalidControl { control, validation_error } => {
                let mut s = String::from_str("Invalid control '");
                s.append(control.as_str());
                s.append("': ");
                s.append(validation_error.as_str());
                s
            },
            MetadataParsingError::InvalidPlatform { platform, validation_error } => {
                let mut s = String::from_str("Invalid platform '");
                s.append(platform.as_str());
                s.append("': ");
                s.append(validation_error.as_str());
                s
            },
            MetadataParsingError::FieldValueValidationFailed { field_name, field_value, validation_error } => {
                let mut s = String::from_str("Field value validation failed for '");
                s.append(field_name.as_str());
                s.append("' (value: '");
                s.append(field_value.as_str());
                s.append("'): ");
                s.append(validation_error.as_str());
                s
            },
        }
    }
}

} // verus!
