//! Building the resolution context from what the compiler pipeline hands
//! over: the AST and the symbol table, both as JSON.

use vstd::prelude::*;
use crate::strings::{concat2, to_owned_string, join_sep, decimal};
use crate::json::{JsonValue, json_get, json_get_str};
use crate::types::metadata::MetaDataBlock;
use crate::types::resolution_context::{ResolutionContext, RelationshipType, SymbolRelationship, context_wf, nothing_resolved,
    deferrals, relationship_name};
use crate::types::common::LogicalOp;
use crate::string_map::CtnMap;
use crate::resolution::error::{ResolutionError, invalid_input_debug, debug_invalid_input};
use crate::resolution::symbol_parser::{relationship_error, relationship_parsed, json_ctn};
use crate::parser::metadata::{extract_metadata_from_json, lemma_metadata_read_passes, metadata_read, missing_fields, required_fields,
    blank_fields, field_value_problem, metadata_parse_error, mandatory_message};
use crate::parser::variable::{extract_and_categorize_variables_from_json, ast_variables, first_variable_error,
    variable_parsed, reference_deferrals};
use crate::parser::state::{extract_states_from_json, first_state_error, state_parsed, first_local_state_error,
    local_states_parsed, states_deferrals, entries_deferrals};
use crate::parser::object::{extract_objects_from_json, apply_object_parsing_to_context, definition_objects,
    definition_criteria, first_object_error, object_parsed, local_objects_parsed, objects_deferrals,
    local_objects_deferrals, local_object_ok, local_object_json, json_items, has_local_object};
use crate::parser::runtime_operation::{extract_runtime_operations_from_json_with_context, ast_runs, good_runs,
    run_parsed, runs_deferrals};
use crate::parser::set::{extract_set_operations_from_json, ast_sets, first_set_error, set_parsed, sets_json_deferrals};
use crate::parser::criterion::tree::{extract_criteria_from_json, definition_blocks, roots_run, roots_parsed,
    criteria_count};
use crate::parser::structure::structure_problems;

verus! {

/// What the compiler pipeline hands over: the AST of a definition and its
/// symbol table (null when there is none).
#[derive(Debug)]
pub struct PipelineOutput {
    pub ast_tree: JsonValue,
    pub symbols: JsonValue,
}

/// The message of the error a relationship of the symbol table gives, if any.
pub open spec fn pipeline_relationship_error(j: JsonValue) -> Option<Seq<char>> {
    if !(j is Object) {
        Some("Relationship must be an object"@)
    } else if json_get_str(j, "relationship_type"@) is None {
        Some("Missing relationship type"@)
    } else if !(exists|t: RelationshipType| relationship_name(t) == json_get_str(j, "relationship_type"@)->Some_0) {
        Some("Invalid relationship type: "@ + json_get_str(j, "relationship_type"@)->Some_0)
    } else if json_get_str(j, "source"@) is None {
        Some("Missing relationship source"@)
    } else if json_get_str(j, "target"@) is None {
        Some("Missing relationship target"@)
    } else {
        None
    }
}

/// The relationships of a list that read, in order.
pub open spec fn readable_relationships(items: Seq<JsonValue>) -> Seq<JsonValue>
    decreases items.len(),
{
    if items.len() == 0 {
        Seq::empty()
    } else {
        readable_relationships(items.drop_last())
            + if pipeline_relationship_error(items.last()) is None { seq![items.last()] } else { Seq::empty() }
    }
}

/// The relationships of the symbol table that read, in order; the others are
/// skipped. A null table or one without a relationship list has none.
pub open spec fn kept_relationships(symbols: JsonValue) -> Seq<JsonValue> {
    if symbols is Null {
        Seq::empty()
    } else {
        readable_relationships(json_items(json_get(symbols, "relationships"@)))
    }
}

/// `rels` are the relationships the symbol table gives.
pub open spec fn relationships_read(symbols: JsonValue, rels: Seq<SymbolRelationship>) -> bool {
    &&& rels.len() == kept_relationships(symbols).len()
    &&& forall|k: int| 0 <= k < rels.len() ==> relationship_parsed(kept_relationships(symbols)[k], #[trigger] rels[k])
}

/// Reading the metadata fails with `m`.
pub open spec fn metadata_failure(ast: JsonValue, m: Seq<char>) -> bool {
    match json_get(ast, "metadata"@) {
        None => m == "ICS definition missing required metadata block"@,
        Some(md) => if md is Null {
            m == "ICS definition has null metadata block"@
        } else {
            match metadata_parse_error(md) {
                Some(pm) => m == pm,
                None => exists|b: MetaDataBlock| #[trigger] metadata_read(ast, b) && b.fields.wf() && (
                    if missing_fields(b, required_fields()).len() > 0 || blank_fields(b, required_fields()).len() > 0 {
                        m == mandatory_message(missing_fields(b, required_fields()), blank_fields(b, required_fields()))
                    } else {
                        field_value_problem(b) == Some(m)
                    }),
            }
        },
    }
}

/// Reading the variables fails with `m`.
pub open spec fn variables_failure(ast: JsonValue, m: Seq<char>) -> bool {
    match json_get(ast, "definition"@) {
        None => m == "No definition found in AST"@,
        Some(_) => first_variable_error(ast_variables(ast)) matches Some(fe) && m == fe.1,
    }
}

/// Reading the states fails with `m`.
pub open spec fn states_failure(ast: JsonValue, m: Seq<char>) -> bool {
    match json_get(ast, "definition"@) {
        None => m == "No definition found in AST"@,
        Some(d) => match first_state_error(json_items(json_get(d, "states"@))) {
            Some(e) => m == e,
            None => first_local_state_error(definition_criteria(d)) == Some(m),
        },
    }
}

/// Reading the objects fails with `m`.
pub open spec fn objects_failure(ast: JsonValue, m: Seq<char>) -> bool {
    match json_get(ast, "definition"@) {
        None => m == "No definition found in AST"@,
        Some(d) => first_object_error(definition_objects(d)) matches Some(fe) && m == fe.1,
    }
}

/// Reading the SET operations fails with `m`.
pub open spec fn sets_failure(ast: JsonValue, m: Seq<char>) -> bool {
    match json_get(ast, "definition"@) {
        None => m == "No definition found in AST"@,
        Some(_) => first_set_error(ast_sets(ast)) matches Some(fe) && m == fe.1,
    }
}

/// Reading the criteria fails with `m`.
pub open spec fn criteria_failure(ast: JsonValue, m: Seq<char>) -> bool {
    match json_get(ast, "definition"@) {
        None => m == "No definition found in AST"@,
        Some(_) => roots_run(definition_blocks(ast), 0).err == Some(m),
    }
}

/// The metadata of the AST was read into `c`.
pub open spec fn metadata_ok(ast: JsonValue, c: ResolutionContext) -> bool {
    c.metadata matches Some(b) && b.fields.wf() && metadata_read(ast, b)
}

/// The variables of the AST were read into `c`.
pub open spec fn variables_ok(ast: JsonValue, c: ResolutionContext) -> bool {
    let vars = ast_variables(ast);
    &&& c.variables@.len() == vars.len()
    &&& forall|k: int| 0 <= k < vars.len() ==> variable_parsed(vars[k], #[trigger] c.variables@[k])
}

/// The global and local states of the definition `d` were read into `c`.
pub open spec fn states_ok(d: JsonValue, c: ResolutionContext) -> bool {
    let states = json_items(json_get(d, "states"@));
    &&& c.global_states@.len() == states.len()
    &&& forall|k: int| 0 <= k < states.len() ==> state_parsed(states[k], true, #[trigger] c.global_states@[k])
    &&& local_states_parsed(definition_criteria(d), c.ctn_local_states)
}

/// The global and local objects of the definition `d` were read into `c`.
pub open spec fn objects_ok(d: JsonValue, c: ResolutionContext) -> bool {
    let objects = definition_objects(d);
    let crits = definition_criteria(d);
    &&& c.global_objects@.len() == objects.len()
    &&& forall|k: int| 0 <= k < objects.len() ==> object_parsed(objects[k], true, #[trigger] c.global_objects@[k])
    &&& forall|k: usize| c.ctn_local_objects.has(k) <==> (k < crits.len() && local_object_ok(crits[k as int]))
    &&& forall|k: usize| c.ctn_local_objects.has(k)
        ==> object_parsed(local_object_json(crits[k as int])->Some_0, false, c.ctn_local_objects.at(k))
}

/// The RUN operations of the AST that read were read into `c`.
pub open spec fn runs_ok(ast: JsonValue, c: ResolutionContext) -> bool {
    let runs = ast_runs(ast);
    &&& c.runtime_operations@.len() == good_runs(runs).len()
    &&& forall|k: int| 0 <= k < good_runs(runs).len() ==> run_parsed(runs[good_runs(runs)[k]], #[trigger] c.runtime_operations@[k])
}

/// The SET operations of the AST were read into `c`.
pub open spec fn sets_ok(ast: JsonValue, c: ResolutionContext) -> bool {
    let sets = ast_sets(ast);
    &&& c.set_operations@.len() == sets.len()
    &&& forall|k: int| 0 <= k < sets.len() ==> set_parsed(sets[k], #[trigger] c.set_operations@[k])
}

/// The criteria trees of the AST were read into `c`.
pub open spec fn criteria_ok(ast: JsonValue, c: ResolutionContext) -> bool {
    &&& roots_run(definition_blocks(ast), 0).err is None
    &&& roots_parsed(definition_blocks(ast), 0, c.criteria_root.trees@)
    &&& c.criteria_root.root_logical_op == LogicalOp::And
}

/// `c` holds what the AST declares: its metadata, variables, global and local
/// states and objects, RUN operations, SET operations and criteria trees,
/// with the validations they defer, in that order, and nothing resolved yet.
pub open spec fn pipeline_read(ast: JsonValue, c: ResolutionContext) -> bool {
    json_get(ast, "definition"@) matches Some(d) && {
        &&& context_wf(c)
        &&& nothing_resolved(c)
        &&& metadata_ok(ast, c)
        &&& variables_ok(ast, c)
        &&& states_ok(d, c)
        &&& objects_ok(d, c)
        &&& runs_ok(ast, c)
        &&& sets_ok(ast, c)
        &&& criteria_ok(ast, c)
        &&& deferrals(c.deferred_validations@) == reference_deferrals(c.variables@) + states_deferrals(c.global_states@)
            + entries_deferrals(c.ctn_local_states.entries@) + objects_deferrals(definition_objects(d))
            + local_objects_deferrals(definition_criteria(d)) + runs_deferrals(ast_runs(ast))
            + sets_json_deferrals(ast_sets(ast)) + roots_run(definition_blocks(ast), 0).defs
    }
}

impl ResolutionContext {
    /// Parse a relationship of the symbol table.
    fn parse_relationship_from_json(rel_json: &JsonValue) -> (res: Result<SymbolRelationship, String>)
        ensures
            match res {
                Ok(r) => pipeline_relationship_error(*rel_json) is None && relationship_parsed(*rel_json, r),
                Err(m) => pipeline_relationship_error(*rel_json) == Some(m@),
            },
    {
        if !rel_json.is_object() {
            return Err(to_owned_string("Relationship must be an object"));
        }
        let rel_type = match rel_json.get_str("relationship_type") {
            Some(t) => t,
            None => {
                return Err(to_owned_string("Missing relationship type"));
            },
        };
        let relationship_type = match RelationshipType::from_str(rel_type) {
            Some(t) => t,
            None => {
                return Err(concat2("Invalid relationship type: ", rel_type));
            },
        };
        let source = match rel_json.get_str("source") {
            Some(s) => to_owned_string(s),
            None => {
                return Err(to_owned_string("Missing relationship source"));
            },
        };
        let target = match rel_json.get_str("target") {
            Some(s) => to_owned_string(s),
            None => {
                return Err(to_owned_string("Missing relationship target"));
            },
        };
        let ctn_context = match rel_json.get("ctn_context") {
            Some(v) => match v.as_u64() {
                Some(id) => Some(id as usize),
                None => None,
            },
            None => None,
        };
        Ok(SymbolRelationship { relationship_type, source, target, ctn_context })
    }
}

/// The error of a phase of reading, as the pipeline reports it: the phase,
/// then the error as `Debug` renders it.
fn phase_error(phase: &str, e: &ResolutionError) -> (res: String)
    ensures
        e is InvalidInput ==> res@ == phase@ + invalid_input_debug(e->message@),
{
    match e {
        ResolutionError::InvalidInput { message } => concat2(phase, debug_invalid_input(message.as_str()).as_str()),
        _ => concat2(phase, crate::resolution::error::debug_resolution_error(e).as_str()),
    }
}

/// The phases up to the states: metadata, variables, states.
fn read_declarations(ast: &JsonValue, context: &mut ResolutionContext) -> (res: Result<(), String>)
    requires
        context_wf(*old(context)),
        deferrals(old(context).deferred_validations@).len() == 0,
        json_get(*ast, "definition"@) matches Some(d) ==> definition_criteria(d).len() <= usize::MAX,
    ensures
        match res {
            Ok(()) => json_get(*ast, "definition"@) matches Some(d) && {
                &&& metadata_reads(*ast) && variables_reads(*ast) && states_reads(*ast)
                &&& context_wf(*final(context))
                &&& metadata_ok(*ast, *final(context))
                &&& variables_ok(*ast, *final(context))
                &&& states_ok(d, *final(context))
                &&& deferrals(final(context).deferred_validations@) == reference_deferrals(final(context).variables@)
                    + states_deferrals(final(context).global_states@) + entries_deferrals(final(context).ctn_local_states.entries@)
                &&& *final(context) == (ResolutionContext {
                    metadata: final(context).metadata,
                    variables: final(context).variables,
                    computed_variables: final(context).computed_variables,
                    literal_variables: final(context).literal_variables,
                    reference_variables: final(context).reference_variables,
                    global_states: final(context).global_states,
                    ctn_local_states: final(context).ctn_local_states,
                    deferred_validations: final(context).deferred_validations,
                    ..*old(context)
                })
            },
            Err(msg) => declarations_failure(*ast, msg@),
        },
{
    match extract_metadata_from_json(ast) {
        Ok(b) => {
            proof {
                lemma_metadata_read_passes(*ast, b);
                assert(metadata_reads(*ast));
            }
            context.metadata = Some(b);
        },
        Err(e) => {
            proof {
                assert(metadata_failure(*ast, e->message@));
            }
            return Err(phase_error("Failed to parse metadata: ", &e));
        },
    }
    let ghost c1 = *context;
    match extract_and_categorize_variables_from_json(ast, context) {
        Ok(vars) => {
            proof {
                assert(variables_reads(*ast));
            }
            context.variables = vars;
        },
        Err(e) => {
            proof {
                assert(variables_failure(*ast, e->message@));
            }
            return Err(phase_error("Failed to parse variables: ", &e));
        },
    }
    let ghost c2 = *context;
    proof {
        assert(metadata_ok(*ast, c2));
        assert(deferrals(c2.deferred_validations@) =~= reference_deferrals(c2.variables@));
    }
    match extract_states_from_json(ast, context) {
        Ok((globals, locals)) => {
            proof {
                assert(states_reads(*ast));
            }
            context.global_states = globals;
            context.ctn_local_states = locals;
        },
        Err(e) => {
            proof {
                assert(states_failure(*ast, e->message@));
            }
            return Err(phase_error("Failed to parse states: ", &e));
        },
    }
    proof {
        assert(context.metadata == c2.metadata);
        assert(context.variables == c2.variables);
    }
    Ok(())
}

/// The phases from the objects on: objects, RUN operations, SET operations,
/// criteria.
fn read_operations(ast: &JsonValue, context: &mut ResolutionContext) -> (res: Result<(), String>)
    requires
        context_wf(*old(context)),
        old(context).ctn_local_objects.entries@.len() == 0,
        json_get(*ast, "definition"@) matches Some(d) ==> definition_criteria(d).len() <= usize::MAX,
        criteria_count(*ast) <= usize::MAX,
    ensures
        match res {
            Ok(()) => json_get(*ast, "definition"@) matches Some(d) && {
                &&& objects_reads(*ast) && sets_reads(*ast) && criteria_reads(*ast)
                &&& context_wf(*final(context))
                &&& objects_ok(d, *final(context))
                &&& runs_ok(*ast, *final(context))
                &&& sets_ok(*ast, *final(context))
                &&& criteria_ok(*ast, *final(context))
                &&& deferrals(final(context).deferred_validations@) == deferrals(old(context).deferred_validations@)
                    + objects_deferrals(definition_objects(d)) + local_objects_deferrals(definition_criteria(d))
                    + runs_deferrals(ast_runs(*ast)) + sets_json_deferrals(ast_sets(*ast))
                    + roots_run(definition_blocks(*ast), 0).defs
                &&& *final(context) == (ResolutionContext {
                    global_objects: final(context).global_objects,
                    ctn_local_objects: final(context).ctn_local_objects,
                    runtime_operations: final(context).runtime_operations,
                    set_operations: final(context).set_operations,
                    criteria_root: final(context).criteria_root,
                    deferred_validations: final(context).deferred_validations,
                    parsing_errors: final(context).parsing_errors,
                    ..*old(context)
                })
            },
            Err(msg) => operations_failure(*ast, msg@),
        },
{
    let ghost c0 = *context;
    match extract_objects_from_json(ast) {
        Ok((globals, locals, parsing_context)) => {
            let ghost pd = parsing_context.deferred_validations@;
            let ghost before = context.deferred_validations@;
            let ghost lm = locals;
            apply_object_parsing_to_context(globals, locals, parsing_context, context);
            proof {
                let d = json_get(*ast, "definition"@)->Some_0;
                let crits = definition_criteria(d);
                assert(deferrals(context.deferred_validations@) =~= deferrals(before) + deferrals(pd));
                assert forall|k: usize| !(#[trigger] c0.ctn_local_objects.has(k)) by {
                    assert(crate::string_map::ctn_keys(c0.ctn_local_objects.entries@).len() == 0);
                }
                assert forall|k: usize| #[trigger] context.ctn_local_objects.has(k)
                    <==> (k < crits.len() && local_object_ok(crits[k as int])) by {
                    assert(!c0.ctn_local_objects.has(k));
                    assert(context.ctn_local_objects.has(k) <==> (c0.ctn_local_objects.has(k) || has_local_object(lm, k)));
                    assert(lm.has(k) <==> (k < crits.len() && local_object_ok(crits[k as int])));
                    if lm.has(k) {
                        assert(lm.at(k)@.len() == 1);
                        assert(has_local_object(lm, k));
                    }
                }
                assert forall|k: usize| #[trigger] context.ctn_local_objects.has(k)
                    implies object_parsed(local_object_json(crits[k as int])->Some_0, false, context.ctn_local_objects.at(k)) by {
                    assert(lm.has(k));
                    assert(lm.at(k)@.len() == 1);
                    assert(has_local_object(lm, k));
                }
                assert(objects_ok(d, *context));
                assert(objects_reads(*ast));
            }
        },
        Err(e) => {
            proof {
                assert(objects_failure(*ast, e->message@));
            }
            return Err(phase_error("Failed to parse objects: ", &e));
        },
    }
    let ghost c1 = *context;
    match extract_runtime_operations_from_json_with_context(ast) {
        Ok(r) => {
            let crate::parser::runtime_operation::RuntimeOperationParsingResult { runtime_operations, context: rc } = r;
            context.runtime_operations = runtime_operations;
            let ghost rd = rc.deferred_validations@;
            let ghost before = context.deferred_validations@;
            rc.apply_to_resolution_context(context);
            proof {
                assert(deferrals(context.deferred_validations@) =~= deferrals(before) + deferrals(rd));
            }
        },
        Err(e) => {
            return Err(phase_error("Failed to parse runtime operations: ", &e));
        },
    }
    let ghost c2 = *context;
    match extract_set_operations_from_json(ast, context) {
        Ok(ops) => {
            proof {
                assert(sets_reads(*ast));
            }
            context.set_operations = ops;
        },
        Err(e) => {
            proof {
                assert(sets_failure(*ast, e->message@));
            }
            return Err(phase_error("Failed to parse set operations: ", &e));
        },
    }
    let ghost c3 = *context;
    match extract_criteria_from_json(ast, context) {
        Ok(root) => {
            context.criteria_root = root;
        },
        Err(e) => {
            proof {
                assert(criteria_failure(*ast, e->message@));
            }
            return Err(phase_error("Failed to parse criteria: ", &e));
        },
    }
    proof {
        assert(objects_ok(json_get(*ast, "definition"@)->Some_0, c1));
        assert(context.global_objects == c1.global_objects);
        assert(context.ctn_local_objects == c1.ctn_local_objects);
        assert(context.runtime_operations == c2.runtime_operations);
        assert(context.set_operations == c3.set_operations);
    }
    Ok(())
}

/// Append the relationships of the symbol table that read, in order.
fn read_relationships(symbols: &JsonValue, context: &mut ResolutionContext)
    requires
        old(context).relationships@.len() == 0,
    ensures
        relationships_read(*symbols, final(context).relationships@),
        *final(context) == (ResolutionContext { relationships: final(context).relationships, ..*old(context) }),
{
    if symbols.is_null() {
        return;
    }
    let empty: Vec<JsonValue> = Vec::new();
    let items = match symbols.get("relationships") {
        Some(v) => match v.as_array() {
            Some(a) => a,
            None => &empty,
        },
        None => &empty,
    };
    let ghost all = items@;
    assert(all == json_items(json_get(*symbols, "relationships"@)));
    let mut i: usize = 0;
    proof {
        assert(all.subrange(0, 0) =~= Seq::<JsonValue>::empty());
    }
    while i < items.len()
        invariant
            i <= items@.len(),
            items@ == all,
            all == json_items(json_get(*symbols, "relationships"@)),
            !(*symbols is Null),
            *context == (ResolutionContext { relationships: context.relationships, ..*old(context) }),
            context.relationships@.len() == readable_relationships(all.subrange(0, i as int)).len(),
            forall|k: int| 0 <= k < context.relationships@.len() ==> relationship_parsed(
                readable_relationships(all.subrange(0, i as int))[k], #[trigger] context.relationships@[k]),
        decreases items@.len() - i,
    {
        let ghost sub = all.subrange(0, i + 1);
        let ghost pre = readable_relationships(all.subrange(0, i as int));
        proof {
            assert(sub.drop_last() =~= all.subrange(0, i as int));
            assert(sub.last() == all[i as int]);
        }
        if let Ok(r) = ResolutionContext::parse_relationship_from_json(&items[i]) {
            context.relationships.push(r);
            proof {
                assert(readable_relationships(sub) == pre.push(all[i as int]));
                assert forall|k: int| 0 <= k < context.relationships@.len() implies relationship_parsed(
                    readable_relationships(sub)[k], #[trigger] context.relationships@[k]) by {
                    if k < pre.len() {
                        assert(readable_relationships(sub)[k] == pre[k]);
                    }
                }
            }
        } else {
            proof {
                assert(readable_relationships(sub) =~= pre);
            }
        }
        i = i + 1;
    }
    proof {
        assert(all.subrange(0, all.len() as int) =~= all);
    }
}

/// No message makes reading the metadata fail.
pub open spec fn metadata_reads(ast: JsonValue) -> bool {
    forall|m: Seq<char>| !#[trigger] metadata_failure(ast, m)
}

/// No message makes reading the variables fail.
pub open spec fn variables_reads(ast: JsonValue) -> bool {
    forall|m: Seq<char>| !#[trigger] variables_failure(ast, m)
}

/// No message makes reading the states fail.
pub open spec fn states_reads(ast: JsonValue) -> bool {
    forall|m: Seq<char>| !#[trigger] states_failure(ast, m)
}

/// No message makes reading the objects fail.
pub open spec fn objects_reads(ast: JsonValue) -> bool {
    forall|m: Seq<char>| !#[trigger] objects_failure(ast, m)
}

/// No message makes reading the SET operations fail.
pub open spec fn sets_reads(ast: JsonValue) -> bool {
    forall|m: Seq<char>| !#[trigger] sets_failure(ast, m)
}

/// No message makes reading the criteria fail.
pub open spec fn criteria_reads(ast: JsonValue) -> bool {
    forall|m: Seq<char>| !#[trigger] criteria_failure(ast, m)
}

/// Reading the metadata, variables and states fails with `msg`: the first
/// of these phases that fails gives it.
pub open spec fn declarations_failure(ast: JsonValue, msg: Seq<char>) -> bool {
    ||| exists|m: Seq<char>| #[trigger] metadata_failure(ast, m)
        && msg == "Failed to parse metadata: "@ + invalid_input_debug(m)
    ||| metadata_reads(ast) && exists|m: Seq<char>| #[trigger] variables_failure(ast, m)
        && msg == "Failed to parse variables: "@ + invalid_input_debug(m)
    ||| metadata_reads(ast) && variables_reads(ast) && exists|m: Seq<char>| #[trigger] states_failure(ast, m)
        && msg == "Failed to parse states: "@ + invalid_input_debug(m)
}

/// Reading the objects, RUN operations, SET operations and criteria fails
/// with `msg`: the first of these phases that fails gives it.
pub open spec fn operations_failure(ast: JsonValue, msg: Seq<char>) -> bool {
    ||| exists|m: Seq<char>| #[trigger] objects_failure(ast, m)
        && msg == "Failed to parse objects: "@ + invalid_input_debug(m)
    ||| objects_reads(ast) && json_get(ast, "definition"@) is None
        && msg == "Failed to parse runtime operations: "@ + invalid_input_debug("No definition found in AST"@)
    ||| objects_reads(ast) && json_get(ast, "definition"@) is Some && exists|m: Seq<char>| #[trigger] sets_failure(ast, m)
        && msg == "Failed to parse set operations: "@ + invalid_input_debug(m)
    ||| objects_reads(ast) && json_get(ast, "definition"@) is Some && sets_reads(ast)
        && exists|m: Seq<char>| #[trigger] criteria_failure(ast, m)
        && msg == "Failed to parse criteria: "@ + invalid_input_debug(m)
}

/// Reading the AST fails with the message `msg`: the first phase that
/// fails gives it (metadata, variables, states, objects, RUN operations, SET
/// operations, criteria, in that order); when every phase reads, the
/// declarations break the structural rules.
pub open spec fn pipeline_failure(ast: JsonValue, msg: Seq<char>) -> bool {
    ||| declarations_failure(ast, msg)
    ||| metadata_reads(ast) && variables_reads(ast) && states_reads(ast) && operations_failure(ast, msg)
    ||| metadata_reads(ast) && variables_reads(ast) && states_reads(ast) && objects_reads(ast)
        && sets_reads(ast) && criteria_reads(ast)
        && exists|c: ResolutionContext| #[trigger] pipeline_read(ast, c) && structure_problems(c).len() > 0
        && msg == join_sep(structure_problems(c), "; "@)
}

impl ResolutionContext {
    /// Build the resolution context from the pipeline output: read the
    /// metadata, variables, states, objects, RUN operations, SET operations
    /// and criteria of the AST in that order, check the structure of what was
    /// read, and take the relationships of the symbol table that read. The
    /// first phase that fails gives the error.
    pub fn from_pipeline_output(output: &PipelineOutput) -> (res: Result<ResolutionContext, String>)
        requires
            json_get(output.ast_tree, "definition"@) matches Some(d) ==> definition_criteria(d).len() <= usize::MAX,
            criteria_count(output.ast_tree) <= usize::MAX,
        ensures
            match res {
                Ok(c) => pipeline_read(output.ast_tree, c) && structure_problems(c).len() == 0
                    && relationships_read(output.symbols, c.relationships@),
                Err(msg) => pipeline_failure(output.ast_tree, msg@),
            },
    {
        let ast = &output.ast_tree;
        let mut context = ResolutionContext::new();
        proof {
            assert(deferrals(context.deferred_validations@) =~= Seq::empty());
        }
        read_declarations(ast, &mut context)?;
        let ghost c1 = context;
        read_operations(ast, &mut context)?;
        proof {
            assert(metadata_ok(*ast, context));
            assert(variables_ok(*ast, context));
            assert(states_ok(json_get(*ast, "definition"@)->Some_0, context));
            assert(pipeline_read(*ast, context));
        }
        match ResolutionContext::validate_structure_only(&context) {
            Err(m) => {
                return Err(m);
            },
            Ok(()) => {},
        }
        let ghost c2 = context;
        read_relationships(&output.symbols, &mut context);
        proof {
            assert(context == (ResolutionContext { relationships: context.relationships, ..c2 }));
            assert(structure_problems(context) == structure_problems(c2));
            assert(pipeline_read(*ast, context));
        }
        Ok(context)
    }
}

} // verus!
