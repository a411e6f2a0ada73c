//! Filters: the context collected while parsing them, and their dependencies.

use vstd::prelude::*;
use crate::strings::{to_owned_string, concat2, concat3, concat5, usize_to_string, decimal,
    is_valid_identifier, spec_is_valid_identifier, trimmed, trim_str};
use crate::json::{JsonValue, json_get, json_str, json_get_str};
use crate::resolution::dag::{views, position_in};
use crate::resolution::error::ResolutionError;
use crate::resolution::set_expansion::dedup_ids;
use crate::types::filter::{FilterAction, FilterSpec};
use crate::types::resolution_context::{DeferredValidation, ResolutionContext, ValidationType,
    deferrals, deferrals_to};

pub mod error;

verus! {

/// What filter parsing collects besides the filters: non-fatal errors,
/// references to validate later, and the state references seen.
#[derive(Debug)]
pub struct FilterParsingContext {
    /// Parsing errors that are non-fatal.
    pub parsing_errors: Vec<String>,
    /// Validations to run once everything is parsed.
    pub deferred_validations: Vec<DeferredValidation>,
    /// State references found: (source, target, context).
    pub state_references: Vec<(String, String, String)>,
}

impl FilterParsingContext {
    /// An empty parsing context.
    pub fn new() -> (res: FilterParsingContext)
        ensures
            res.parsing_errors@.len() == 0,
            res.deferred_validations@.len() == 0,
            res.state_references@.len() == 0,
    {
        FilterParsingContext { parsing_errors: Vec::new(), deferred_validations: Vec::new(), state_references: Vec::new() }
    }

    /// Record a non-fatal parsing error.
    pub fn add_parsing_error(&mut self, error: String)
        ensures
            *final(self) == (FilterParsingContext { parsing_errors: final(self).parsing_errors, ..*old(self) }),
            final(self).parsing_errors@ == old(self).parsing_errors@.push(error),
    {
        self.parsing_errors.push(error);
    }

    /// Record a filter's reference to a state, to validate later.
    pub fn defer_filter_state_reference(&mut self, source: String, target: String, context: String)
        ensures
            final(self).parsing_errors == old(self).parsing_errors,
            final(self).state_references@ == old(self).state_references@.push((source, target, context)),
            final(self).deferred_validations@ == old(self).deferred_validations@.push(DeferredValidation {
                validation_type: ValidationType::FilterStateReference,
                source_symbol: source,
                target_symbol: target,
                context,
            }),
    {
        self.state_references.push((source.clone(), target.clone(), context.clone()));
        self.deferred_validations.push(DeferredValidation {
            validation_type: ValidationType::FilterStateReference,
            source_symbol: source,
            target_symbol: target,
            context,
        });
    }

    /// Hand the errors and deferred validations over to the resolution context.
    pub fn apply_to_resolution_context(self, resolution_context: &mut ResolutionContext)
        ensures
            final(resolution_context).parsing_errors@ == old(resolution_context).parsing_errors@ + self.parsing_errors@,
            final(resolution_context).deferred_validations@
                == old(resolution_context).deferred_validations@ + self.deferred_validations@,
            *final(resolution_context) == (ResolutionContext {
                parsing_errors: final(resolution_context).parsing_errors,
                deferred_validations: final(resolution_context).deferred_validations,
                ..*old(resolution_context)
            }),
    {
        let mut errors = self.parsing_errors;
        let mut validations = self.deferred_validations;
        resolution_context.parsing_errors.append(&mut errors);
        resolution_context.deferred_validations.append(&mut validations);
    }
}

/// A parsed filter with the context collected while parsing it.
#[derive(Debug)]
pub struct FilterParsingResult {
    pub filter: FilterSpec,
    pub context: FilterParsingContext,
}

impl FilterParsingResult {
    /// Pair a filter with its parsing context.
    pub fn new(filter: FilterSpec, context: FilterParsingContext) -> (res: FilterParsingResult)
        ensures
            res.filter == filter,
            res.context == context,
    {
        FilterParsingResult { filter, context }
    }
}

/// Filters refer to states only, never to variables.
pub fn has_variable_references_in_filter(filter: &FilterSpec) -> (res: bool)
    ensures
        !res,
{
    false
}

/// The states a filter depends on, in order.
pub fn get_state_dependencies_from_filter(filter: &FilterSpec) -> (res: Vec<String>)
    ensures
        res@ == filter.state_refs@,
{
    filter.get_state_dependencies()
}

/// The parsing errors of a list of filter results, one after the other.
pub open spec fn results_errors(s: Seq<FilterParsingResult>) -> Seq<String>
    decreases s.len(),
{
    if s.len() == 0 { Seq::empty() } else { results_errors(s.drop_last()) + s.last().context.parsing_errors@ }
}

/// The deferred validations of a list of filter results, one after the other.
pub open spec fn results_validations(s: Seq<FilterParsingResult>) -> Seq<DeferredValidation>
    decreases s.len(),
{
    if s.len() == 0 { Seq::empty() } else { results_validations(s.drop_last()) + s.last().context.deferred_validations@ }
}

/// Hand the errors and deferred validations of every filter result over to
/// the resolution context, in order.
pub fn apply_filter_parsing_to_context(parsing_results: Vec<FilterParsingResult>, resolution_context: &mut ResolutionContext)
    ensures
        final(resolution_context).parsing_errors@
            == old(resolution_context).parsing_errors@ + results_errors(parsing_results@),
        final(resolution_context).deferred_validations@
            == old(resolution_context).deferred_validations@ + results_validations(parsing_results@),
        *final(resolution_context) == (ResolutionContext {
            parsing_errors: final(resolution_context).parsing_errors,
            deferred_validations: final(resolution_context).deferred_validations,
            ..*old(resolution_context)
        }),
{
    let ghost all = parsing_results@;
    let mut rest = parsing_results;
    let n = rest.len();
    let mut k: usize = 0;
    proof {
        assert(all.subrange(0, 0) =~= Seq::<FilterParsingResult>::empty());
        assert(rest@ =~= all.subrange(0, all.len() as int));
    }
    while rest.len() > 0
        invariant
            k <= all.len(),
            all.len() == n,
            rest@ == all.subrange(k as int, all.len() as int),
            resolution_context.parsing_errors@ == old(resolution_context).parsing_errors@ + results_errors(all.subrange(0, k as int)),
            resolution_context.deferred_validations@
                == old(resolution_context).deferred_validations@ + results_validations(all.subrange(0, k as int)),
            *resolution_context == (ResolutionContext {
                parsing_errors: resolution_context.parsing_errors,
                deferred_validations: resolution_context.deferred_validations,
                ..*old(resolution_context)
            }),
        decreases all.len() - k,
    {
        let result = rest.remove(0);
        proof {
            assert(result == all[k as int]);
            assert(all.subrange(0, k + 1).drop_last() =~= all.subrange(0, k as int));
            assert(all.subrange(0, k + 1).last() == all[k as int]);
        }
        result.context.apply_to_resolution_context(resolution_context);
        k = k + 1;
        proof {
            assert(rest@ =~= all.subrange(k as int, all.len() as int));
        }
    }
    proof {
        assert(all.subrange(0, all.len() as int) =~= all);
    }
}

/// The action of a filter and the non-fatal errors met reading it, or the
/// message of the fatal error. An unknown action reads as `include`.
pub open spec fn filter_action_outcome(f: JsonValue, ctx: Seq<char>)
    -> Result<(FilterAction, Seq<Seq<char>>), Seq<char>>
{
    match json_get(f, "action"@) {
        None => Err("Filter missing action in "@ + ctx),
        Some(a) => match json_str(a) {
            None => Err("Filter action must be a string in "@ + ctx),
            Some(s) => if s == "include"@ {
                Ok((FilterAction::Include, Seq::empty()))
            } else if s == "exclude"@ {
                Ok((FilterAction::Exclude, Seq::empty()))
            } else {
                Ok((FilterAction::Include, seq!["Invalid filter action '"@ + s + "' in context '"@ + ctx
                    + "', defaulting to 'include'"@]))
            },
        },
    }
}

/// A state identifier found at position `i`: kept (`true`, the identifier)
/// or skipped (`false`, the message).
pub open spec fn checked_state_id(id: Seq<char>, i: nat, ctx: Seq<char>) -> (bool, Seq<char>) {
    if trimmed(id).len() == 0 {
        (false, "Empty state ID at index "@ + decimal(i) + " in context '"@ + ctx + "'"@)
    } else if !spec_is_valid_identifier(id) {
        (false, "Invalid state ID format '"@ + id + "' at index "@ + decimal(i) + " in context '"@ + ctx + "'"@)
    } else {
        (true, id)
    }
}

/// What the state reference at position `i` gives: `None` when it is an
/// object without a `state_id` string (fatal), else as `checked_state_id`;
/// a reference that is neither a string nor an object is skipped.
pub open spec fn state_ref_item(v: JsonValue, i: nat, ctx: Seq<char>) -> Option<(bool, Seq<char>)> {
    match v {
        JsonValue::String(s) => Some(checked_state_id(s@, i, ctx)),
        JsonValue::Object(_) => match json_get_str(v, "state_id"@) {
            Some(s) => Some(checked_state_id(s, i, ctx)),
            None => None,
        },
        _ => Some((false, "Invalid state reference format at index "@ + decimal(i) + " in context '"@ + ctx + "'"@)),
    }
}

/// The non-fatal errors and the kept identifiers of a list of state
/// references, or `None` when one of them is fatal.
pub open spec fn state_refs_scan(items: Seq<JsonValue>, ctx: Seq<char>) -> Option<(Seq<Seq<char>>, Seq<Seq<char>>)>
    decreases items.len(),
{
    if items.len() == 0 {
        Some((Seq::empty(), Seq::empty()))
    } else {
        match state_refs_scan(items.drop_last(), ctx) {
            None => None,
            Some(r) => match state_ref_item(items.last(), (items.len() - 1) as nat, ctx) {
                None => None,
                Some(x) => if x.0 { Some((r.0, r.1.push(x.1))) } else { Some((r.0.push(x.1), r.1)) },
            },
        }
    }
}

/// The non-fatal errors and kept identifiers of a filter's state references,
/// or the message of the fatal error.
pub open spec fn filter_refs_outcome(f: JsonValue, ctx: Seq<char>) -> Result<(Seq<Seq<char>>, Seq<Seq<char>>), Seq<char>> {
    match json_get(f, "state_refs"@) {
        None => Err("Filter missing state_refs in "@ + ctx),
        Some(JsonValue::Array(a)) => match state_refs_scan(a@, ctx) {
            None => Err("State reference object missing state_id in "@ + ctx),
            Some(r) => Ok(r),
        },
        Some(_) => Err("Filter state_refs must be an array in "@ + ctx),
    }
}

/// The message of the error a filter gives, if any.
pub open spec fn filter_error(f: JsonValue, ctx: Seq<char>) -> Option<Seq<char>> {
    if f is Null {
        Some("Filter specification cannot be null in "@ + ctx)
    } else {
        match filter_action_outcome(f, ctx) {
            Err(m) => Some(m),
            Ok(_) => match filter_refs_outcome(f, ctx) {
                Err(m) => Some(m),
                Ok(r) => if dedup_ids(r.1).len() == 0 {
                    Some("Filter in '"@ + ctx + "' must reference at least one state"@)
                } else {
                    None
                },
            },
        }
    }
}

/// The context recorded with each deferred filter state reference.
pub open spec fn filter_ref_context(ctx: Seq<char>) -> Seq<char> {
    "filter state reference in "@ + ctx
}

/// The state references of a parsing context as plain values.
pub open spec fn state_reference_views(s: Seq<(String, String, String)>) -> Seq<(Seq<char>, Seq<char>, Seq<char>)> {
    s.map_values(|t: (String, String, String)| (t.0@, t.1@, t.2@))
}

/// A parsed filter is the one `f` describes, read from `source` in `ctx`.
pub open spec fn filter_result_matches(r: FilterParsingResult, f: JsonValue, source: Seq<char>, ctx: Seq<char>) -> bool {
    let a = filter_action_outcome(f, ctx)->Ok_0;
    let refs = filter_refs_outcome(f, ctx)->Ok_0;
    &&& r.filter.action == a.0
    &&& views(r.filter.state_refs@) == dedup_ids(refs.1)
    &&& views(r.context.parsing_errors@) == a.1 + refs.0
    &&& deferrals(r.context.deferred_validations@)
        == deferrals_to(ValidationType::FilterStateReference, source, refs.1, filter_ref_context(ctx))
    &&& state_reference_views(r.context.state_references@)
        == refs.1.map_values(|x: Seq<char>| (source, x, filter_ref_context(ctx)))
}

/// Once a prefix of the references is fatal, so is the whole list.
proof fn lemma_scan_fatal_extends(items: Seq<JsonValue>, k: int, ctx: Seq<char>)
    requires
        0 <= k <= items.len(),
        state_refs_scan(items.subrange(0, k), ctx) is None,
    ensures
        state_refs_scan(items, ctx) is None,
    decreases items.len() - k,
{
    if k == items.len() {
        assert(items.subrange(0, k) =~= items);
    } else {
        assert(items.subrange(0, k + 1).drop_last() =~= items.subrange(0, k));
        lemma_scan_fatal_extends(items, k + 1, ctx);
    }
}

/// Read a filter's action; an unknown action is recorded as a parsing error
/// and read as `include`.
fn parse_filter_action(filter_json: &JsonValue, context: &str, parsing_context: &mut FilterParsingContext)
    -> (res: Result<FilterAction, ResolutionError>)
    ensures
        match res {
            Ok(a) => filter_action_outcome(*filter_json, context@) matches Ok(o)
                && a == o.0 && views(final(parsing_context).parsing_errors@) == views(old(parsing_context).parsing_errors@) + o.1,
            Err(e) => e matches ResolutionError::InvalidInput { message }
                && filter_action_outcome(*filter_json, context@) == Err::<(FilterAction, Seq<Seq<char>>), Seq<char>>(message@),
        },
        final(parsing_context).deferred_validations == old(parsing_context).deferred_validations,
        final(parsing_context).state_references == old(parsing_context).state_references,
{
    let ghost e0 = views(parsing_context.parsing_errors@);
    let action_value = match filter_json.get("action") {
        Some(v) => v,
        None => {
            return Err(ResolutionError::InvalidInput { message: concat2("Filter missing action in ", context) });
        },
    };
    let action_str = match action_value.as_str() {
        Some(s) => s,
        None => {
            return Err(ResolutionError::InvalidInput { message: concat2("Filter action must be a string in ", context) });
        },
    };
    match FilterAction::from_str(action_str) {
        Some(a) => {
            proof {
                assert(views(parsing_context.parsing_errors@) =~= e0 + Seq::<Seq<char>>::empty());
            }
            Ok(a)
        },
        None => {
            let msg = concat5("Invalid filter action '", action_str, "' in context '", context,
                "', defaulting to 'include'");
            parsing_context.add_parsing_error(msg);
            proof {
                assert(views(parsing_context.parsing_errors@) =~= e0 + seq![msg@]);
            }
            Ok(FilterAction::Include)
        },
    }
}

/// Check a state identifier found at position `index`.
fn check_state_id(id: &str, index: usize, context: &str) -> (res: (bool, String))
    ensures
        (res.0, res.1@) == checked_state_id(id@, index as nat, context@),
{
    let n = usize_to_string(index);
    if trim_str(id).unicode_len() == 0 {
        (false, concat5("Empty state ID at index ", n.as_str(), " in context '", context, "'"))
    } else if !is_valid_identifier(id) {
        let head = concat3("Invalid state ID format '", id, "' at index ");
        (false, concat5(head.as_str(), n.as_str(), " in context '", context, "'"))
    } else {
        (true, to_owned_string(id))
    }
}

/// Read a filter's state references: strings or `{"state_id": ...}` objects.
/// Invalid references are recorded as parsing errors and skipped; each kept
/// reference is deferred for validation; duplicates are dropped, first
/// occurrences kept.
fn parse_state_references_with_deferred_validation(
    filter_json: &JsonValue,
    source_id: &str,
    context: &str,
    parsing_context: &mut FilterParsingContext,
) -> (res: Result<Vec<String>, ResolutionError>)
    ensures
        match res {
            Ok(refs) => filter_refs_outcome(*filter_json, context@) matches Ok(o) && {
                &&& views(refs@) == dedup_ids(o.1)
                &&& views(final(parsing_context).parsing_errors@) == views(old(parsing_context).parsing_errors@) + o.0
                &&& deferrals(final(parsing_context).deferred_validations@) == deferrals(old(parsing_context).deferred_validations@)
                    + deferrals_to(ValidationType::FilterStateReference, source_id@, o.1, filter_ref_context(context@))
                &&& state_reference_views(final(parsing_context).state_references@)
                    == state_reference_views(old(parsing_context).state_references@)
                        + o.1.map_values(|x: Seq<char>| (source_id@, x, filter_ref_context(context@)))
            },
            Err(e) => e matches ResolutionError::InvalidInput { message }
                && filter_refs_outcome(*filter_json, context@)
                    == Err::<(Seq<Seq<char>>, Seq<Seq<char>>), Seq<char>>(message@),
        },
{
    let refs_value = match filter_json.get("state_refs") {
        Some(v) => v,
        None => {
            return Err(ResolutionError::InvalidInput { message: concat2("Filter missing state_refs in ", context) });
        },
    };
    let items = match refs_value.as_array() {
        Some(a) => a,
        None => {
            return Err(ResolutionError::InvalidInput {
                message: concat2("Filter state_refs must be an array in ", context),
            });
        },
    };
    let ghost e0 = views(parsing_context.parsing_errors@);
    let ghost d0 = deferrals(parsing_context.deferred_validations@);
    let ghost s0 = state_reference_views(parsing_context.state_references@);
    let ghost ref_ctx = filter_ref_context(context@);
    let ref_context = concat2("filter state reference in ", context);
    let mut kept: Vec<String> = Vec::new();
    let mut i: usize = 0;
    proof {
        assert(items@.subrange(0, 0) =~= Seq::<JsonValue>::empty());
        assert(views(parsing_context.parsing_errors@) =~= e0 + Seq::<Seq<char>>::empty());
        assert(deferrals(parsing_context.deferred_validations@) =~= d0
            + deferrals_to(ValidationType::FilterStateReference, source_id@, Seq::<Seq<char>>::empty(), ref_ctx));
        assert(state_reference_views(parsing_context.state_references@) =~= s0
            + Seq::<Seq<char>>::empty().map_values(|x: Seq<char>| (source_id@, x, ref_ctx)));
    }
    while i < items.len()
        invariant
            i <= items@.len(),
            ref_context@ == ref_ctx,
            ref_ctx == filter_ref_context(context@),
            json_get(*filter_json, "state_refs"@) == Some(JsonValue::Array(*items)),
            state_refs_scan(items@.subrange(0, i as int), context@) matches Some(o) && {
                &&& views(kept@) == o.1
                &&& views(parsing_context.parsing_errors@) == e0 + o.0
                &&& deferrals(parsing_context.deferred_validations@)
                    == d0 + deferrals_to(ValidationType::FilterStateReference, source_id@, o.1, ref_ctx)
                &&& state_reference_views(parsing_context.state_references@)
                    == s0 + o.1.map_values(|x: Seq<char>| (source_id@, x, ref_ctx))
            },
        decreases items@.len() - i,
    {
        let ghost prev = state_refs_scan(items@.subrange(0, i as int), context@)->Some_0;
        proof {
            let sub = items@.subrange(0, i + 1);
            assert(sub.drop_last() =~= items@.subrange(0, i as int));
            assert(sub.last() == items@[i as int]);
        }
        let item = &items[i];
        let checked: (bool, String) = match item {
            JsonValue::String(s) => check_state_id(s.as_str(), i, context),
            JsonValue::Object(_) => match item.get_str("state_id") {
                Some(s) => check_state_id(s, i, context),
                None => {
                    proof {
                        assert(state_ref_item(items@[i as int], i as nat, context@) is None);
                        assert(state_refs_scan(items@.subrange(0, i + 1), context@) is None);
                        lemma_scan_fatal_extends(items@, i + 1, context@);
                    }
                    return Err(ResolutionError::InvalidInput {
                        message: concat2("State reference object missing state_id in ", context),
                    });
                },
            },
            _ => {
                let n = usize_to_string(i);
                (false, concat5("Invalid state reference format at index ", n.as_str(), " in context '", context, "'"))
            },
        };
        let ghost pe = views(parsing_context.parsing_errors@);
        let ghost pd = deferrals(parsing_context.deferred_validations@);
        let ghost ps = state_reference_views(parsing_context.state_references@);
        let ghost pk = views(kept@);
        if checked.0 {
            let id = checked.1;
            parsing_context.defer_filter_state_reference(to_owned_string(source_id), id.clone(), ref_context.clone());
            kept.push(id);
            proof {
                let o = state_refs_scan(items@.subrange(0, i + 1), context@)->Some_0;
                assert(o.1 == prev.1.push(id@));
                assert(views(kept@) =~= pk.push(id@));
                assert(deferrals_to(ValidationType::FilterStateReference, source_id@, o.1, ref_ctx)
                    =~= deferrals_to(ValidationType::FilterStateReference, source_id@, prev.1, ref_ctx)
                        .push((ValidationType::FilterStateReference, source_id@, id@, ref_ctx)));
                assert(deferrals(parsing_context.deferred_validations@) =~= pd
                    .push((ValidationType::FilterStateReference, source_id@, id@, ref_ctx)));
                assert(o.1.map_values(|x: Seq<char>| (source_id@, x, ref_ctx))
                    =~= prev.1.map_values(|x: Seq<char>| (source_id@, x, ref_ctx)).push((source_id@, id@, ref_ctx)));
                assert(state_reference_views(parsing_context.state_references@) =~= ps.push((source_id@, id@, ref_ctx)));
            }
        } else {
            let msg = checked.1;
            parsing_context.add_parsing_error(msg);
            proof {
                assert(views(parsing_context.parsing_errors@) =~= pe.push(msg@));
            }
        }
        i = i + 1;
    }
    proof {
        assert(items@.subrange(0, items@.len() as int) =~= items@);
    }
    let unique = dedup_strings(&kept);
    Ok(unique)
}

/// The strings of `v` without repeats, first occurrences kept in order.
pub fn dedup_strings(v: &Vec<String>) -> (res: Vec<String>)
    ensures
        views(res@) == dedup_ids(views(v@)),
{
    let ghost all = views(v@);
    let mut out: Vec<String> = Vec::new();
    let mut i: usize = 0;
    while i < v.len()
        invariant
            i <= v@.len(),
            all == views(v@),
            views(out@) == dedup_ids(all.subrange(0, i as int)),
        decreases v@.len() - i,
    {
        proof {
            assert(all.subrange(0, i + 1).drop_last() =~= all.subrange(0, i as int));
            assert(all.subrange(0, i + 1).last() == v@[i as int]@);
        }
        let ghost ob = views(out@);
        let present = match position_in(&out, v[i].as_str()) {
            Some(k) => {
                proof {
                    assert(views(out@)[k as int] == v@[i as int]@);
                }
                true
            },
            None => false,
        };
        if !present {
            out.push(v[i].clone());
            proof {
                assert(views(out@) =~= ob.push(v@[i as int]@));
            }
        }
        i = i + 1;
    }
    proof {
        assert(all.subrange(0, all.len() as int) =~= all);
    }
    out
}

/// Parse a filter (`{"action": ..., "state_refs": [...]}`) read from the
/// symbol `source_id` in `context`, collecting non-fatal errors and the
/// state references to validate later.
pub fn extract_filter_from_json_with_context(filter_json: &JsonValue, source_id: &str, context: &str)
    -> (res: Result<FilterParsingResult, ResolutionError>)
    ensures
        match res {
            Ok(r) => filter_error(*filter_json, context@) is None
                && filter_result_matches(r, *filter_json, source_id@, context@),
            Err(e) => e matches ResolutionError::InvalidInput { message }
                && filter_error(*filter_json, context@) == Some(message@),
        },
{
    let mut parsing_context = FilterParsingContext::new();
    if filter_json.is_null() {
        return Err(ResolutionError::InvalidInput {
            message: concat2("Filter specification cannot be null in ", context),
        });
    }
    let action = match parse_filter_action(filter_json, context, &mut parsing_context) {
        Ok(a) => a,
        Err(e) => {
            return Err(e);
        },
    };
    let ghost after_action = parsing_context;
    let state_refs = match parse_state_references_with_deferred_validation(filter_json, source_id, context,
        &mut parsing_context) {
        Ok(r) => r,
        Err(e) => {
            return Err(e);
        },
    };
    if state_refs.len() == 0 {
        return Err(ResolutionError::InvalidInput {
            message: concat3("Filter in '", context, "' must reference at least one state"),
        });
    }
    proof {
        let a = filter_action_outcome(*filter_json, context@)->Ok_0;
        let refs = filter_refs_outcome(*filter_json, context@)->Ok_0;
        assert(deferrals(after_action.deferred_validations@) =~= Seq::empty());
        assert(state_reference_views(after_action.state_references@) =~= Seq::empty());
        assert(views(after_action.parsing_errors@) =~= a.1);
        assert(deferrals(parsing_context.deferred_validations@)
            =~= deferrals_to(ValidationType::FilterStateReference, source_id@, refs.1, filter_ref_context(context@)));
        assert(state_reference_views(parsing_context.state_references@)
            =~= refs.1.map_values(|x: Seq<char>| (source_id@, x, filter_ref_context(context@))));
    }
    let filter = FilterSpec { action, state_refs };
    Ok(FilterParsingResult::new(filter, parsing_context))
}

/// Parse a filter, keeping only the filter itself.
pub fn extract_filter_from_json(filter_json: &JsonValue, context: &str) -> (res: Result<FilterSpec, ResolutionError>)
    ensures
        match res {
            Ok(f) => filter_error(*filter_json, context@) is None
                && f.action == filter_action_outcome(*filter_json, context@)->Ok_0.0
                && views(f.state_refs@) == dedup_ids(filter_refs_outcome(*filter_json, context@)->Ok_0.1),
            Err(e) => e matches ResolutionError::InvalidInput { message }
                && filter_error(*filter_json, context@) == Some(message@),
        },
{
    match extract_filter_from_json_with_context(filter_json, "unknown", context) {
        Ok(r) => Ok(r.filter),
        Err(e) => Err(e),
    }
}

/// Parse the filter of the object `object_id`; the context reads "object '<id>'".
pub fn parse_filter_from_object_element_with_context(filter_json: &JsonValue, object_id: &str)
    -> (res: Result<FilterParsingResult, ResolutionError>)
    ensures
        match res {
            Ok(r) => filter_error(*filter_json, "object '"@ + object_id@ + "'"@) is None
                && filter_result_matches(r, *filter_json, object_id@, "object '"@ + object_id@ + "'"@),
            Err(e) => e matches ResolutionError::InvalidInput { message }
                && filter_error(*filter_json, "object '"@ + object_id@ + "'"@) == Some(message@),
        },
{
    let context = concat3("object '", object_id, "'");
    extract_filter_from_json_with_context(filter_json, object_id, context.as_str())
}

/// Parse the filter of the SET `set_id`; the context reads "set '<id>'".
pub fn parse_filter_from_set_context_with_context(filter_json: &JsonValue, set_id: &str)
    -> (res: Result<FilterParsingResult, ResolutionError>)
    ensures
        match res {
            Ok(r) => filter_error(*filter_json, "set '"@ + set_id@ + "'"@) is None
                && filter_result_matches(r, *filter_json, set_id@, "set '"@ + set_id@ + "'"@),
            Err(e) => e matches ResolutionError::InvalidInput { message }
                && filter_error(*filter_json, "set '"@ + set_id@ + "'"@) == Some(message@),
        },
{
    let context = concat3("set '", set_id, "'");
    extract_filter_from_json_with_context(filter_json, set_id, context.as_str())
}

/// Parse the filter of the object `object_id`, keeping only the filter.
pub fn parse_filter_from_object_element(filter_json: &JsonValue, object_id: &str)
    -> (res: Result<FilterSpec, ResolutionError>)
    ensures
        match res {
            Ok(f) => filter_error(*filter_json, "object '"@ + object_id@ + "'"@) is None
                && f.action == filter_action_outcome(*filter_json, "object '"@ + object_id@ + "'"@)->Ok_0.0
                && views(f.state_refs@) == dedup_ids(filter_refs_outcome(*filter_json, "object '"@ + object_id@ + "'"@)->Ok_0.1),
            Err(e) => e matches ResolutionError::InvalidInput { message }
                && filter_error(*filter_json, "object '"@ + object_id@ + "'"@) == Some(message@),
        },
{
    match parse_filter_from_object_element_with_context(filter_json, object_id) {
        Ok(r) => Ok(r.filter),
        Err(e) => Err(e),
    }
}

/// Parse the filter of the SET `set_id`, keeping only the filter.
pub fn parse_filter_from_set_context(filter_json: &JsonValue, set_id: &str)
    -> (res: Result<FilterSpec, ResolutionError>)
    ensures
        match res {
            Ok(f) => filter_error(*filter_json, "set '"@ + set_id@ + "'"@) is None
                && f.action == filter_action_outcome(*filter_json, "set '"@ + set_id@ + "'"@)->Ok_0.0
                && views(f.state_refs@) == dedup_ids(filter_refs_outcome(*filter_json, "set '"@ + set_id@ + "'"@)->Ok_0.1),
            Err(e) => e matches ResolutionError::InvalidInput { message }
                && filter_error(*filter_json, "set '"@ + set_id@ + "'"@) == Some(message@),
        },
{
    match parse_filter_from_set_context_with_context(filter_json, set_id) {
        Ok(r) => Ok(r.filter),
        Err(e) => Err(e),
    }
}

} // verus!
