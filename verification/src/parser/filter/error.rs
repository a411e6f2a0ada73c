//! Errors raised while parsing filters.

use vstd::prelude::*;
use crate::strings::{to_owned_string, join_strings, join_sep, usize_to_string, decimal};

verus! {

/// Errors raised while parsing a filter.
#[allow(inconsistent_fields)]
#[derive(Debug, Clone)]
pub enum FilterParsingError {
    /// Failed to parse filter specification from JSON
    FilterSpecParsingFailed { context: String, cause: String },
    /// Invalid filter action encountered
    InvalidFilterAction { context: String, action: String, valid_actions: Vec<String> },
    /// Missing filter action field
    MissingFilterAction { context: String },
    /// Filter state references array missing or invalid
    InvalidStateReferences { context: String, cause: String },
    /// Empty state references (filters must reference at least one state)
    EmptyStateReferences { context: String },
    /// Invalid state reference format
    InvalidStateReference { context: String, state_ref: String, cause: String },
    /// Filter block structure invalid
    InvalidFilterStructure { context: String, available_keys: Vec<String>, expected_keys: Vec<String> },
    /// Multiple filter actions specified (should be one)
    MultipleFilterActions { context: String, actions: Vec<String> },
    /// Filter specification empty or null
    EmptyFilterSpec { context: String },
    /// State reference validation failed
    StateReferenceValidationFailed { context: String, state_id: String, validation_error: String },
    /// Filter nesting too deep (if nested filters are supported)
    FilterNestingTooDeep { context: String, depth: usize, max_depth: usize },
    /// Invalid filter context (e.g., filter used in wrong place)
    InvalidFilterContext { filter_context: String, expected_contexts: Vec<String> },
}

/// The message that describes an error.
pub open spec fn filter_parsing_error_message(e: FilterParsingError) -> Seq<char> {
    match e {
        FilterParsingError::FilterSpecParsingFailed { context, cause } => "Failed to parse filter specification in '"@ + context@ + "': "@ + cause@,
        FilterParsingError::InvalidFilterAction { context, action, valid_actions } => "Invalid filter action '"@ + action@ + "' in '"@ + context@ + "'. Valid actions: ["@ + join_sep(valid_actions@.map_values(|x: String| x@), ", "@) + "]"@,
        FilterParsingError::MissingFilterAction { context } => "Filter action missing in '"@ + context@ + "'"@,
        FilterParsingError::InvalidStateReferences { context, cause } => "Invalid state references in '"@ + context@ + "': "@ + cause@,
        FilterParsingError::EmptyStateReferences { context } => "Filter in '"@ + context@ + "' has no state references (at least one required)"@,
        FilterParsingError::InvalidStateReference { context, state_ref, cause } => "Invalid state reference '"@ + state_ref@ + "' in '"@ + context@ + "': "@ + cause@,
        FilterParsingError::InvalidFilterStructure { context, available_keys, expected_keys } => "Invalid filter structure in '"@ + context@ + "'. Available: ["@ + join_sep(available_keys@.map_values(|x: String| x@), ", "@) + "], Expected: ["@ + join_sep(expected_keys@.map_values(|x: String| x@), ", "@) + "]"@,
        FilterParsingError::MultipleFilterActions { context, actions } => "Multiple filter actions specified in '"@ + context@ + "': ["@ + join_sep(actions@.map_values(|x: String| x@), ", "@) + "] (only one allowed)"@,
        FilterParsingError::EmptyFilterSpec { context } => "Empty filter specification in '"@ + context@ + "'"@,
        FilterParsingError::StateReferenceValidationFailed { context, state_id, validation_error } => "State reference validation failed for '"@ + state_id@ + "' in '"@ + context@ + "': "@ + validation_error@,
        FilterParsingError::FilterNestingTooDeep { context, depth, max_depth } => "Filter nesting too deep in '"@ + context@ + "': "@ + decimal(depth as nat) + " > "@ + decimal(max_depth as nat) + " (max allowed)"@,
        FilterParsingError::InvalidFilterContext { filter_context, expected_contexts } => "Filter used in invalid context '"@ + filter_context@ + "'. Valid contexts: ["@ + join_sep(expected_contexts@.map_values(|x: String| x@), ", "@) + "]"@,
    }
}

impl FilterParsingError {
    /// Create filter spec parsing error
    pub fn filter_spec_parsing_failed(context: &str, cause: &str) -> (res: FilterParsingError)
        ensures
            res matches FilterParsingError::FilterSpecParsingFailed { context: b_context, cause: b_cause }
                && b_context@ == context@
                && b_cause@ == cause@,
    {
        FilterParsingError::FilterSpecParsingFailed { context: String::from_str(context), cause: String::from_str(cause) }
    }

    /// Create invalid filter action error
    pub fn invalid_filter_action(context: &str, action: &str) -> (res: FilterParsingError)
        ensures
            res matches FilterParsingError::InvalidFilterAction { context: b_context, action: b_action, valid_actions: b_valid_actions }
                && b_context@ == context@
                && b_action@ == action@
                && b_valid_actions@.map_values(|x: String| x@) == seq!["include"@, "exclude"@],
    {
        let mut valid_actions_v: Vec<String> = Vec::new();
        valid_actions_v.push(String::from_str("include"));
        valid_actions_v.push(String::from_str("exclude"));
        proof {
            assert(valid_actions_v@.map_values(|x: String| x@) =~= seq!["include"@, "exclude"@]);
        }
        FilterParsingError::InvalidFilterAction { context: String::from_str(context), action: String::from_str(action), valid_actions: valid_actions_v }
    }

    /// Create missing filter action error
    pub fn missing_filter_action(context: &str) -> (res: FilterParsingError)
        ensures
            res matches FilterParsingError::MissingFilterAction { context: b_context }
                && b_context@ == context@,
    {
        FilterParsingError::MissingFilterAction { context: String::from_str(context) }
    }

    /// Create invalid state references error
    pub fn invalid_state_references(context: &str, cause: &str) -> (res: FilterParsingError)
        ensures
            res matches FilterParsingError::InvalidStateReferences { context: b_context, cause: b_cause }
                && b_context@ == context@
                && b_cause@ == cause@,
    {
        FilterParsingError::InvalidStateReferences { context: String::from_str(context), cause: String::from_str(cause) }
    }

    /// Create empty state references error
    pub fn empty_state_references(context: &str) -> (res: FilterParsingError)
        ensures
            res matches FilterParsingError::EmptyStateReferences { context: b_context }
                && b_context@ == context@,
    {
        FilterParsingError::EmptyStateReferences { context: String::from_str(context) }
    }

    /// Create invalid state reference error
    pub fn invalid_state_reference(context: &str, state_ref: &str, cause: &str) -> (res: FilterParsingError)
        ensures
            res matches FilterParsingError::InvalidStateReference { context: b_context, state_ref: b_state_ref, cause: b_cause }
                && b_context@ == context@
                && b_state_ref@ == state_ref@
                && b_cause@ == cause@,
    {
        FilterParsingError::InvalidStateReference { context: String::from_str(context), state_ref: String::from_str(state_ref), cause: String::from_str(cause) }
    }

    /// Create invalid filter structure error
    pub fn invalid_filter_structure(context: &str, available_keys: Vec<String>, expected_keys: Vec<String>) -> (res: FilterParsingError)
        ensures
            res matches FilterParsingError::InvalidFilterStructure { context: b_context, available_keys: b_available_keys, expected_keys: b_expected_keys }
                && b_context@ == context@
                && b_available_keys == available_keys
                && b_expected_keys == expected_keys,
    {
        FilterParsingError::InvalidFilterStructure { context: String::from_str(context), available_keys: available_keys, expected_keys: expected_keys }
    }

    /// Create empty filter spec error
    pub fn empty_filter_spec(context: &str) -> (res: FilterParsingError)
        ensures
            res matches FilterParsingError::EmptyFilterSpec { context: b_context }
                && b_context@ == context@,
    {
        FilterParsingError::EmptyFilterSpec { context: String::from_str(context) }
    }

    /// The message that describes this error.
    pub fn to_string(&self) -> (res: String)
        ensures
            res@ == filter_parsing_error_message(*self),
    {
        match self {
            FilterParsingError::FilterSpecParsingFailed { context, cause } => {
                let mut s = String::from_str("Failed to parse filter specification in '");
                s.append(context.as_str());
                s.append("': ");
                s.append(cause.as_str());
                s
            },
            FilterParsingError::InvalidFilterAction { context, action, valid_actions } => {
                let mut s = String::from_str("Invalid filter action '");
                s.append(action.as_str());
                s.append("' in '");
                s.append(context.as_str());
                s.append("'. Valid actions: [");
                s.append(join_strings(valid_actions, ", ").as_str());
                s.append("]");
                s
            },
            FilterParsingError::MissingFilterAction { context } => {
                let mut s = String::from_str("Filter action missing in '");
                s.append(context.as_str());
                s.append("'");
                s
            },
            FilterParsingError::InvalidStateReferences { context, cause } => {
                let mut s = String::from_str("Invalid state references in '");
                s.append(context.as_str());
                s.append("': ");
                s.append(cause.as_str());
                s
            },
            FilterParsingError::EmptyStateReferences { context } => {
                let mut s = String::from_str("Filter in '");
                s.append(context.as_str());
                s.append("' has no state references (at least one required)");
                s
            },
            FilterParsingError::InvalidStateReference { context, state_ref, cause } => {
                let mut s = String::from_str("Invalid state reference '");
                s.append(state_ref.as_str());
                s.append("' in '");
                s.append(context.as_str());
                s.append("': ");
                s.append(cause.as_str());
                s
            },
            FilterParsingError::InvalidFilterStructure { context, available_keys, expected_keys } => {
                let mut s = String::from_str("Invalid filter structure in '");
                s.append(context.as_str());
                s.append("'. Available: [");
                s.append(join_strings(available_keys, ", ").as_str());
                s.append("], Expected: [");
                s.append(join_strings(expected_keys, ", ").as_str());
                s.append("]");
                s
            },
            FilterParsingError::MultipleFilterActions { context, actions } => {
                let mut s = String::from_str("Multiple filter actions specified in '");
                s.append(context.as_str());
                s.append("': [");
                s.append(join_strings(actions, ", ").as_str());
                s.append("] (only one allowed)");
                s
            },
            FilterParsingError::EmptyFilterSpec { context } => {
                let mut s = String::from_str("Empty filter specification in '");
                s.append(context.as_str());
                s.append("'");
                s
            },
            FilterParsingError::StateReferenceValidationFailed { context, state_id, validation_error } => {
                let mut s = String::from_str("State reference validation failed for '");
                s.append(state_id.as_str());
                s.append("' in '");
                s.append(context.as_str());
                s.append("': ");
                s.append(validation_error.as_str());
                s
            },
            FilterParsingError::FilterNestingTooDeep { context, depth, max_depth } => {
                let mut s = String::from_str("Filter nesting too deep in '");
                s.append(context.as_str());
                s.append("': ");
                s.append(usize_to_string(*depth).as_str());
                s.append(" > ");
                s.append(usize_to_string(*max_depth).as_str());
                s.append(" (max allowed)");
                s
            },
            FilterParsingError::InvalidFilterContext { filter_context, expected_contexts } => {
                let mut s = String::from_str("Filter used in invalid context '");
                s.append(filter_context.as_str());
                s.append("'. Valid contexts: [");
                s.append(join_strings(expected_contexts, ", ").as_str());
                s.append("]");
                s
            },
        }
    }
}

} // verus!
