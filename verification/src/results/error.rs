//! Errors raised while generating scan results.

use vstd::prelude::*;
use crate::strings::{to_owned_string, join_strings, join_sep, usize_to_string, decimal};

verus! {

/// Errors raised while generating a scan result.
#[allow(inconsistent_fields)]
#[derive(Debug, Clone)]
pub enum ResultGenerationError {
    /// Failed to generate scan result from resolution context
    ScanResultGenerationFailed { scan_id: String, cause: String },
    /// Failed to extract metadata from ICS definition
    MetadataExtractionFailed { scan_id: String, missing_field: String, cause: String },
    /// Invalid scan identifier format
    InvalidScanIdFormat { scan_id: String, format_requirements: String },
    /// Failed to create host context
    HostContextCreationFailed { hostname: String, cause: String },
    /// Failed to create user context
    UserContextCreationFailed { username: String, cause: String },
    /// Compliance finding generation failed
    ComplianceFindingGenerationFailed { finding_id: String, field_path: String, cause: String },
    /// Invalid severity level specified
    InvalidSeverityLevel { severity: String, valid_levels: Vec<String> },
    /// Timestamp calculation failed
    TimestampCalculationFailed { scan_id: String, calculation_type: String, cause: String },
    /// JSON serialization failed
    JsonSerializationFailed { scan_id: String, format: String, cause: String },
    /// JSON deserialization failed
    JsonDeserializationFailed { source_type: String, cause: String },
    /// Compliance metrics calculation failed
    MetricsCalculationFailed { scan_id: String, metric_type: String, cause: String },
    /// Result finalization failed
    ResultFinalizationFailed { scan_id: String, finalization_step: String, cause: String },
    /// Invalid criteria count values
    InvalidCriteriaCount { scan_id: String, total: u32, passed: u32, failed: u32, errors: u32, validation_error: String },
    /// Finding ID generation failed
    FindingIdGenerationFailed { context: String, cause: String },
    /// Finding severity mapping failed
    FindingSeverityMappingFailed { field_name: String, field_value: String, mapping_error: String },
    /// Result aggregation failed (for future multi-scan support)
    ResultAggregationFailed { scan_ids: Vec<String>, aggregation_type: String, cause: String },
    /// Invalid compliance status transition
    InvalidComplianceStatusTransition { scan_id: String, from_status: String, to_status: String, reason: String },
    /// System information collection failed
    SystemInfoCollectionFailed { info_type: String, cause: String },
    /// Process information extraction failed
    ProcessInfoExtractionFailed { process_id: u32, cause: String },
    /// Duration calculation overflow
    DurationCalculationOverflow { scan_id: String, start_time: String, end_time: String },
    /// ICS metadata validation failed during result generation
    IcsMetadataValidationFailed { scan_id: String, validation_errors: Vec<String> },
    /// Result structure validation failed
    ResultStructureValidationFailed { scan_id: String, validation_rule: String, cause: String },
    /// Export format not supported
    UnsupportedExportFormat { requested_format: String, supported_formats: Vec<String> },
    /// Result transformation failed
    ResultTransformationFailed { scan_id: String, from_format: String, to_format: String, cause: String },
    /// Concurrent result access violation
    ConcurrentAccessViolation { scan_id: String, operation: String, cause: String },
}

/// The message that describes an error.
pub open spec fn result_generation_error_message(e: ResultGenerationError) -> Seq<char> {
    match e {
        ResultGenerationError::ScanResultGenerationFailed { scan_id, cause } => "Failed to generate scan result for '"@ + scan_id@ + "': "@ + cause@,
        ResultGenerationError::MetadataExtractionFailed { scan_id, missing_field, cause } => "Failed to extract metadata field '"@ + missing_field@ + "' for scan '"@ + scan_id@ + "': "@ + cause@,
        ResultGenerationError::InvalidScanIdFormat { scan_id, format_requirements } => "Invalid scan ID format '"@ + scan_id@ + "': "@ + format_requirements@,
        ResultGenerationError::HostContextCreationFailed { hostname, cause } => "Failed to create host context for '"@ + hostname@ + "': "@ + cause@,
        ResultGenerationError::UserContextCreationFailed { username, cause } => "Failed to create user context for '"@ + username@ + "': "@ + cause@,
        ResultGenerationError::ComplianceFindingGenerationFailed { finding_id, field_path, cause } => "Failed to generate compliance finding '"@ + finding_id@ + "' for field '"@ + field_path@ + "': "@ + cause@,
        ResultGenerationError::InvalidSeverityLevel { severity, valid_levels } => "Invalid severity level '"@ + severity@ + "'. Valid levels: ["@ + join_sep(valid_levels@.map_values(|x: String| x@), ", "@) + "]"@,
        ResultGenerationError::TimestampCalculationFailed { scan_id, calculation_type, cause } => "Failed to calculate "@ + calculation_type@ + " timestamp for scan '"@ + scan_id@ + "': "@ + cause@,
        ResultGenerationError::JsonSerializationFailed { scan_id, format, cause } => "Failed to serialize scan '"@ + scan_id@ + "' to "@ + format@ + " format: "@ + cause@,
        ResultGenerationError::JsonDeserializationFailed { source_type, cause } => "Failed to deserialize "@ + source_type@ + " from JSON: "@ + cause@,
        ResultGenerationError::MetricsCalculationFailed { scan_id, metric_type, cause } => "Failed to calculate "@ + metric_type@ + " metrics for scan '"@ + scan_id@ + "': "@ + cause@,
        ResultGenerationError::ResultFinalizationFailed { scan_id, finalization_step, cause } => "Failed to finalize scan '"@ + scan_id@ + "' at step '"@ + finalization_step@ + "': "@ + cause@,
        ResultGenerationError::InvalidCriteriaCount { scan_id, total, passed, failed, errors, validation_error } => "Invalid criteria counts for scan '"@ + scan_id@ + "' (total:"@ + decimal(total as nat) + ", passed:"@ + decimal(passed as nat) + ", failed:"@ + decimal(failed as nat) + ", errors:"@ + decimal(errors as nat) + "): "@ + validation_error@,
        ResultGenerationError::FindingIdGenerationFailed { context, cause } => "Failed to generate finding ID in context '"@ + context@ + "': "@ + cause@,
        ResultGenerationError::FindingSeverityMappingFailed { field_name, field_value, mapping_error } => "Failed to map severity for field '"@ + field_name@ + "' with value '"@ + field_value@ + "': "@ + mapping_error@,
        ResultGenerationError::ResultAggregationFailed { scan_ids, aggregation_type, cause } => "Failed to aggregate "@ + aggregation_type@ + " results for scans ["@ + join_sep(scan_ids@.map_values(|x: String| x@), ", "@) + "]: "@ + cause@,
        ResultGenerationError::InvalidComplianceStatusTransition { scan_id, from_status, to_status, reason } => "Invalid compliance status transition for scan '"@ + scan_id@ + "': "@ + from_status@ + " -> "@ + to_status@ + " ("@ + reason@ + ")"@,
        ResultGenerationError::SystemInfoCollectionFailed { info_type, cause } => "Failed to collect "@ + info_type@ + " system information: "@ + cause@,
        ResultGenerationError::ProcessInfoExtractionFailed { process_id, cause } => "Failed to extract process information for PID "@ + decimal(process_id as nat) + ": "@ + cause@,
        ResultGenerationError::DurationCalculationOverflow { scan_id, start_time, end_time } => "Duration calculation overflow for scan '"@ + scan_id@ + "' (start: "@ + start_time@ + ", end: "@ + end_time@ + ")"@,
        ResultGenerationError::IcsMetadataValidationFailed { scan_id, validation_errors } => "ICS metadata validation failed for scan '"@ + scan_id@ + "': ["@ + join_sep(validation_errors@.map_values(|x: String| x@), ", "@) + "]"@,
        ResultGenerationError::ResultStructureValidationFailed { scan_id, validation_rule, cause } => "Result structure validation failed for scan '"@ + scan_id@ + "' (rule: "@ + validation_rule@ + "): "@ + cause@,
        ResultGenerationError::UnsupportedExportFormat { requested_format, supported_formats } => "Unsupported export format '"@ + requested_format@ + "'. Supported formats: ["@ + join_sep(supported_formats@.map_values(|x: String| x@), ", "@) + "]"@,
        ResultGenerationError::ResultTransformationFailed { scan_id, from_format, to_format, cause } => "Failed to transform scan '"@ + scan_id@ + "' from "@ + from_format@ + " to "@ + to_format@ + ": "@ + cause@,
        ResultGenerationError::ConcurrentAccessViolation { scan_id, operation, cause } => "Concurrent access violation for scan '"@ + scan_id@ + "' during operation '"@ + operation@ + "': "@ + cause@,
    }
}

impl ResultGenerationError {
    /// Create scan result generation error
    pub fn scan_result_generation_failed(scan_id: &str, cause: &str) -> (res: ResultGenerationError)
        ensures
            res matches ResultGenerationError::ScanResultGenerationFailed { scan_id: b_scan_id, cause: b_cause }
                && b_scan_id@ == scan_id@
                && b_cause@ == cause@,
    {
        ResultGenerationError::ScanResultGenerationFailed { scan_id: String::from_str(scan_id), cause: String::from_str(cause) }
    }

    /// Create metadata extraction error
    pub fn metadata_extraction_failed(scan_id: &str, missing_field: &str, cause: &str) -> (res: ResultGenerationError)
        ensures
            res matches ResultGenerationError::MetadataExtractionFailed { scan_id: b_scan_id, missing_field: b_missing_field, cause: b_cause }
                && b_scan_id@ == scan_id@
                && b_missing_field@ == missing_field@
                && b_cause@ == cause@,
    {
        ResultGenerationError::MetadataExtractionFailed { scan_id: String::from_str(scan_id), missing_field: String::from_str(missing_field), cause: String::from_str(cause) }
    }

    /// Create invalid scan ID format error
    pub fn invalid_scan_id_format(scan_id: &str, format_requirements: &str) -> (res: ResultGenerationError)
        ensures
            res matches ResultGenerationError::InvalidScanIdFormat { scan_id: b_scan_id, format_requirements: b_format_requirements }
                && b_scan_id@ == scan_id@
                && b_format_requirements@ == format_requirements@,
    {
        ResultGenerationError::InvalidScanIdFormat { scan_id: String::from_str(scan_id), format_requirements: String::from_str(format_requirements) }
    }

    /// Create host context creation error
    pub fn host_context_creation_failed(hostname: &str, cause: &str) -> (res: ResultGenerationError)
        ensures
            res matches ResultGenerationError::HostContextCreationFailed { hostname: b_hostname, cause: b_cause }
                && b_hostname@ == hostname@
                && b_cause@ == cause@,
    {
        ResultGenerationError::HostContextCreationFailed { hostname: String::from_str(hostname), cause: String::from_str(cause) }
    }

    /// Create user context creation error
    pub fn user_context_creation_failed(username: &str, cause: &str) -> (res: ResultGenerationError)
        ensures
            res matches ResultGenerationError::UserContextCreationFailed { username: b_username, cause: b_cause }
                && b_username@ == username@
                && b_cause@ == cause@,
    {
        ResultGenerationError::UserContextCreationFailed { username: String::from_str(username), cause: String::from_str(cause) }
    }

    /// Create compliance finding generation error
    pub fn compliance_finding_generation_failed(finding_id: &str, field_path: &str, cause: &str) -> (res: ResultGenerationError)
        ensures
            res matches ResultGenerationError::ComplianceFindingGenerationFailed { finding_id: b_finding_id, field_path: b_field_path, cause: b_cause }
                && b_finding_id@ == finding_id@
                && b_field_path@ == field_path@
                && b_cause@ == cause@,
    {
        ResultGenerationError::ComplianceFindingGenerationFailed { finding_id: String::from_str(finding_id), field_path: String::from_str(field_path), cause: String::from_str(cause) }
    }

    /// Create invalid severity level error
    pub fn invalid_severity_level(severity: &str) -> (res: ResultGenerationError)
        ensures
            res matches ResultGenerationError::InvalidSeverityLevel { severity: b_severity, valid_levels: b_valid_levels }
                && b_severity@ == severity@
                && b_valid_levels@.map_values(|x: String| x@) == seq!["critical"@, "high"@, "medium"@, "low"@, "info"@],
    {
        let mut valid_levels_v: Vec<String> = Vec::new();
        valid_levels_v.push(String::from_str("critical"));
        valid_levels_v.push(String::from_str("high"));
        valid_levels_v.push(String::from_str("medium"));
        valid_levels_v.push(String::from_str("low"));
        valid_levels_v.push(String::from_str("info"));
        proof {
            assert(valid_levels_v@.map_values(|x: String| x@) =~= seq!["critical"@, "high"@, "medium"@, "low"@, "info"@]);
        }
        ResultGenerationError::InvalidSeverityLevel { severity: String::from_str(severity), valid_levels: valid_levels_v }
    }

    /// Create JSON serialization error
    pub fn json_serialization_failed(scan_id: &str, format: &str, cause: &str) -> (res: ResultGenerationError)
        ensures
            res matches ResultGenerationError::JsonSerializationFailed { scan_id: b_scan_id, format: b_format, cause: b_cause }
                && b_scan_id@ == scan_id@
                && b_format@ == format@
                && b_cause@ == cause@,
    {
        ResultGenerationError::JsonSerializationFailed { scan_id: String::from_str(scan_id), format: String::from_str(format), cause: String::from_str(cause) }
    }

    /// Create JSON deserialization error
    pub fn json_deserialization_failed(source_type: &str, cause: &str) -> (res: ResultGenerationError)
        ensures
            res matches ResultGenerationError::JsonDeserializationFailed { source_type: b_source_type, cause: b_cause }
                && b_source_type@ == source_type@
                && b_cause@ == cause@,
    {
        ResultGenerationError::JsonDeserializationFailed { source_type: String::from_str(source_type), cause: String::from_str(cause) }
    }

    /// Create metrics calculation error
    pub fn metrics_calculation_failed(scan_id: &str, metric_type: &str, cause: &str) -> (res: ResultGenerationError)
        ensures
            res matches ResultGenerationError::MetricsCalculationFailed { scan_id: b_scan_id, metric_type: b_metric_type, cause: b_cause }
                && b_scan_id@ == scan_id@
                && b_metric_type@ == metric_type@
                && b_cause@ == cause@,
    {
        ResultGenerationError::MetricsCalculationFailed { scan_id: String::from_str(scan_id), metric_type: String::from_str(metric_type), cause: String::from_str(cause) }
    }

    /// Create result finalization error
    pub fn result_finalization_failed(scan_id: &str, finalization_step: &str, cause: &str) -> (res: ResultGenerationError)
        ensures
            res matches ResultGenerationError::ResultFinalizationFailed { scan_id: b_scan_id, finalization_step: b_finalization_step, cause: b_cause }
                && b_scan_id@ == scan_id@
                && b_finalization_step@ == finalization_step@
                && b_cause@ == cause@,
    {
        ResultGenerationError::ResultFinalizationFailed { scan_id: String::from_str(scan_id), finalization_step: String::from_str(finalization_step), cause: String::from_str(cause) }
    }

    /// Create invalid criteria count error
    pub fn invalid_criteria_count(scan_id: &str, total: u32, passed: u32, failed: u32, errors: u32, validation_error: &str) -> (res: ResultGenerationError)
        ensures
            res matches ResultGenerationError::InvalidCriteriaCount { scan_id: b_scan_id, total: b_total, passed: b_passed, failed: b_failed, errors: b_errors, validation_error: b_validation_error }
                && b_scan_id@ == scan_id@
                && b_total == total
                && b_passed == passed
                && b_failed == failed
                && b_errors == errors
                && b_validation_error@ == validation_error@,
    {
        ResultGenerationError::InvalidCriteriaCount { scan_id: String::from_str(scan_id), total: total, passed: passed, failed: failed, errors: errors, validation_error: String::from_str(validation_error) }
    }

    /// Create finding ID generation error
    pub fn finding_id_generation_failed(context: &str, cause: &str) -> (res: ResultGenerationError)
        ensures
            res matches ResultGenerationError::FindingIdGenerationFailed { context: b_context, cause: b_cause }
                && b_context@ == context@
                && b_cause@ == cause@,
    {
        ResultGenerationError::FindingIdGenerationFailed { context: String::from_str(context), cause: String::from_str(cause) }
    }

    /// Create system info collection error
    pub fn system_info_collection_failed(info_type: &str, cause: &str) -> (res: ResultGenerationError)
        ensures
            res matches ResultGenerationError::SystemInfoCollectionFailed { info_type: b_info_type, cause: b_cause }
                && b_info_type@ == info_type@
                && b_cause@ == cause@,
    {
        ResultGenerationError::SystemInfoCollectionFailed { info_type: String::from_str(info_type), cause: String::from_str(cause) }
    }

    /// Create ICS metadata validation error
    pub fn ics_metadata_validation_failed(scan_id: &str, validation_errors: Vec<String>) -> (res: ResultGenerationError)
        ensures
            res matches ResultGenerationError::IcsMetadataValidationFailed { scan_id: b_scan_id, validation_errors: b_validation_errors }
                && b_scan_id@ == scan_id@
                && b_validation_errors == validation_errors,
    {
        ResultGenerationError::IcsMetadataValidationFailed { scan_id: String::from_str(scan_id), validation_errors: validation_errors }
    }

    /// Create unsupported export format error
    pub fn unsupported_export_format(requested_format: &str, supported_formats: Vec<String>) -> (res: ResultGenerationError)
        ensures
            res matches ResultGenerationError::UnsupportedExportFormat { requested_format: b_requested_format, supported_formats: b_supported_formats }
                && b_requested_format@ == requested_format@
                && b_supported_formats == supported_formats,
    {
        ResultGenerationError::UnsupportedExportFormat { requested_format: String::from_str(requested_format), supported_formats: supported_formats }
    }

    /// The message that describes this error.
    pub fn to_string(&self) -> (res: String)
        ensures
            res@ == result_generation_error_message(*self),
    {
        match self {
            ResultGenerationError::ScanResultGenerationFailed { scan_id, cause } => {
                let mut s = String::from_str("Failed to generate scan result for '");
                s.append(scan_id.as_str());
                s.append("': ");
                s.append(cause.as_str());
                s
            },
            ResultGenerationError::MetadataExtractionFailed { scan_id, missing_field, cause } => {
                let mut s = String::from_str("Failed to extract metadata field '");
                s.append(missing_field.as_str());
                s.append("' for scan '");
                s.append(scan_id.as_str());
                s.append("': ");
                s.append(cause.as_str());
                s
            },
            ResultGenerationError::InvalidScanIdFormat { scan_id, format_requirements } => {
                let mut s = String::from_str("Invalid scan ID format '");
                s.append(scan_id.as_str());
                s.append("': ");
                s.append(format_requirements.as_str());
                s
            },
            ResultGenerationError::HostContextCreationFailed { hostname, cause } => {
                let mut s = String::from_str("Failed to create host context for '");
                s.append(hostname.as_str());
                s.append("': ");
                s.append(cause.as_str());
                s
            },
            ResultGenerationError::UserContextCreationFailed { username, cause } => {
                let mut s = String::from_str("Failed to create user context for '");
                s.append(username.as_str());
                s.append("': ");
                s.append(cause.as_str());
                s
            },
            ResultGenerationError::ComplianceFindingGenerationFailed { finding_id, field_path, cause } => {
                let mut s = String::from_str("Failed to generate compliance finding '");
                s.append(finding_id.as_str());
                s.append("' for field '");
                s.append(field_path.as_str());
                s.append("': ");
                s.append(cause.as_str());
                s
            },
            ResultGenerationError::InvalidSeverityLevel { severity, valid_levels } => {
                let mut s = String::from_str("Invalid severity level '");
                s.append(severity.as_str());
                s.append("'. Valid levels: [");
                s.append(join_strings(valid_levels, ", ").as_str());
                s.append("]");
                s
            },
            ResultGenerationError::TimestampCalculationFailed { scan_id, calculation_type, cause } => {
                let mut s = String::from_str("Failed to calculate ");
                s.append(calculation_type.as_str());
                s.append(" timestamp for scan '");
                s.append(scan_id.as_str());
                s.append("': ");
                s.append(cause.as_str());
                s
            },
            ResultGenerationError::JsonSerializationFailed { scan_id, format, cause } => {
                let mut s = String::from_str("Failed to serialize scan '");
                s.append(scan_id.as_str());
                s.append("' to ");
                s.append(format.as_str());
                s.append(" format: ");
                s.append(cause.as_str());
                s
            },
            ResultGenerationError::JsonDeserializationFailed { source_type, cause } => {
                let mut s = String::from_str("Failed to deserialize ");
                s.append(source_type.as_str());
                s.append(" from JSON: ");
                s.append(cause.as_str());
                s
            },
            ResultGenerationError::MetricsCalculationFailed { scan_id, metric_type, cause } => {
                let mut s = String::from_str("Failed to calculate ");
                s.append(metric_type.as_str());
                s.append(" metrics for scan '");
                s.append(scan_id.as_str());
                s.append("': ");
                s.append(cause.as_str());
                s
            },
            ResultGenerationError::ResultFinalizationFailed { scan_id, finalization_step, cause } => {
                let mut s = String::from_str("Failed to finalize scan '");
                s.append(scan_id.as_str());
                s.append("' at step '");
                s.append(finalization_step.as_str());
                s.append("': ");
                s.append(cause.as_str());
                s
            },
            ResultGenerationError::InvalidCriteriaCount { scan_id, total, passed, failed, errors, validation_error } => {
                let mut s = String::from_str("Invalid criteria counts for scan '");
                s.append(scan_id.as_str());
                s.append("' (total:");
                s.append(usize_to_string(*total as usize).as_str());
                s.append(", passed:");
                s.append(usize_to_string(*passed as usize).as_str());
                s.append(", failed:");
                s.append(usize_to_string(*failed as usize).as_str());
                s.append(", errors:");
                s.append(usize_to_string(*errors as usize).as_str());
                s.append("): ");
                s.append(validation_error.as_str());
                s
            },
            ResultGenerationError::FindingIdGenerationFailed { context, cause } => {
                let mut s = String::from_str("Failed to generate finding ID in context '");
                s.append(context.as_str());
                s.append("': ");
                s.append(cause.as_str());
                s
            },
            ResultGenerationError::FindingSeverityMappingFailed { field_name, field_value, mapping_error } => {
                let mut s = String::from_str("Failed to map severity for field '");
                s.append(field_name.as_str());
                s.append("' with value '");
                s.append(field_value.as_str());
                s.append("': ");
                s.append(mapping_error.as_str());
                s
            },
            ResultGenerationError::ResultAggregationFailed { scan_ids, aggregation_type, cause } => {
                let mut s = String::from_str("Failed to aggregate ");
                s.append(aggregation_type.as_str());
                s.append(" results for scans [");
                s.append(join_strings(scan_ids, ", ").as_str());
                s.append("]: ");
                s.append(cause.as_str());
                s
            },
            ResultGenerationError::InvalidComplianceStatusTransition { scan_id, from_status, to_status, reason } => {
                let mut s = String::from_str("Invalid compliance status transition for scan '");
                s.append(scan_id.as_str());
                s.append("': ");
                s.append(from_status.as_str());
                s.append(" -> ");
                s.append(to_status.as_str());
                s.append(" (");
                s.append(reason.as_str());
                s.append(")");
                s
            },
            ResultGenerationError::SystemInfoCollectionFailed { info_type, cause } => {
                let mut s = String::from_str("Failed to collect ");
                s.append(info_type.as_str());
                s.append(" system information: ");
                s.append(cause.as_str());
                s
            },
            ResultGenerationError::ProcessInfoExtractionFailed { process_id, cause } => {
                let mut s = String::from_str("Failed to extract process information for PID ");
                s.append(usize_to_string(*process_id as usize).as_str());
                s.append(": ");
                s.append(cause.as_str());
                s
            },
            ResultGenerationError::DurationCalculationOverflow { scan_id, start_time, end_time } => {
                let mut s = String::from_str("Duration calculation overflow for scan '");
                s.append(scan_id.as_str());
                s.append("' (start: ");
                s.append(start_time.as_str());
                s.append(", end: ");
                s.append(end_time.as_str());
                s.append(")");
                s
            },
            ResultGenerationError::IcsMetadataValidationFailed { scan_id, validation_errors } => {
                let mut s = String::from_str("ICS metadata validation failed for scan '");
                s.append(scan_id.as_str());
                s.append("': [");
                s.append(join_strings(validation_errors, ", ").as_str());
                s.append("]");
                s
            },
            ResultGenerationError::ResultStructureValidationFailed { scan_id, validation_rule, cause } => {
                let mut s = String::from_str("Result structure validation failed for scan '");
                s.append(scan_id.as_str());
                s.append("' (rule: ");
                s.append(validation_rule.as_str());
                s.append("): ");
                s.append(cause.as_str());
                s
            },
            ResultGenerationError::UnsupportedExportFormat { requested_format, supported_formats } => {
                let mut s = String::from_str("Unsupported export format '");
                s.append(requested_format.as_str());
                s.append("'. Supported formats: [");
                s.append(join_strings(supported_formats, ", ").as_str());
                s.append("]");
                s
            },
            ResultGenerationError::ResultTransformationFailed { scan_id, from_format, to_format, cause } => {
                let mut s = String::from_str("Failed to transform scan '");
                s.append(scan_id.as_str());
                s.append("' from ");
                s.append(from_format.as_str());
                s.append(" to ");
                s.append(to_format.as_str());
                s.append(": ");
                s.append(cause.as_str());
                s
            },
            ResultGenerationError::ConcurrentAccessViolation { scan_id, operation, cause } => {
                let mut s = String::from_str("Concurrent access violation for scan '");
                s.append(scan_id.as_str());
                s.append("' during operation '");
                s.append(operation.as_str());
                s.append("': ");
                s.append(cause.as_str());
                s
            },
        }
    }
}

} // verus!
