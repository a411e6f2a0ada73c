//! The resolution engine: the dependency graph of the global symbols, their
//! resolution in dependency order, and the resolution of the local symbols of
//! each criterion.

use vstd::prelude::*;
use crate::strings::concat2;
use crate::types::common::{Value, spec_variable_name};
use crate::types::variable::{VariableDeclaration, ResolvedVariable, init_dependency};
use crate::types::state::{StateDeclaration, StateField, fields_var_refs, value_var_ref};
use crate::types::object::{ObjectDeclaration, elements_var_refs, collect_element_var_refs};
use crate::types::set::{SetOperation, SetOperand};
use crate::types::runtime_operation::{RuntimeOperation, params_var_refs, params_object_refs, param_var_refs,
    RunParameter};
use crate::types::resolution_context::{ResolutionContext, SymbolRelationship, DeferredOperation,
    spec_is_hard_dependency, context_wf, nothing_resolved};
use crate::types::set::ResolvedSetOperation;
use crate::resolution::set_operations::{execute_set_operation, lemma_set_frame, set_resolvable, set_error, set_keys,
    resolved_set_matches, inline_resolvable, inline_elements, resolved_field_value, unresolved_field,
    resolved_operand_matches, is_inline_resolution};
use crate::resolution::dag::{DependencyGraph, SymbolType, views, lemma_wf_graph_validates};
use crate::resolution::error::ResolutionError;
use crate::resolution::field_resolver::{FieldResolver, field_value};
use crate::types::common::{ResolvedValue, RecordData};
use crate::types::state::{RecordCheck, RecordContent, RecordField, ResolvedState, ResolvedStateField, ResolvedRecordCheck,
    ResolvedRecordContent, ResolvedRecordField, FieldPath};
use crate::types::object::{ObjectElement, ResolvedObject, ResolvedObjectElement};
use crate::types::filter::{ResolvedFilterSpec, clone_strings};
use crate::string_map::StringMap;
use crate::strings::{concat3, join_strings, join_sep};
use crate::json::{JsonValue, json_get};
use crate::string_map::CtnMap;
use crate::types::criteria::forest_criteria;
use crate::parser::pipeline::{PipelineOutput, pipeline_read, pipeline_failure, criteria_ok, metadata_ok, variables_ok, states_ok,
    objects_ok, runs_ok, sets_ok};
use crate::parser::object::definition_criteria;
use crate::parser::criterion::tree::{criteria_count, definition_blocks, roots_run, lemma_roots_numbering};
use crate::parser::structure::structure_problems;
use crate::resolution::symbol_parser::{parse_relationships_from_json, parsed_positions, relationship_parsed};
use crate::resolution::set_expansion::{expand_sets_in_resolution_context, set_graph, is_set_lasso, all_expandable,
    criteria_error};
use crate::resolution::cycles::relation_has_cycle;

verus! {

/// A dependency edge as plain values: the dependent symbol, then the symbol
/// it depends on.
pub type Edge = (Seq<char>, Seq<char>);

/// The global symbols of a context, in the order they enter the graph:
/// variables, RUN targets, states, objects, SETs.
pub open spec fn engine_symbols(c: ResolutionContext) -> Seq<Seq<char>> {
    c.variables@.map_values(|v: VariableDeclaration| v.name@)
        + c.runtime_operations@.map_values(|r: RuntimeOperation| r.target_variable@)
        + c.global_states@.map_values(|s: StateDeclaration| s.identifier@)
        + c.global_objects@.map_values(|o: ObjectDeclaration| o.identifier@)
        + c.set_operations@.map_values(|s: SetOperation| s.set_id@)
}

/// An edge from `from` to each of `targets`, in order.
pub open spec fn edges_to(from: Seq<char>, targets: Seq<Seq<char>>) -> Seq<Edge> {
    targets.map_values(|t: Seq<char>| (from, t))
}

/// The edges of the hard relationships of the symbol table.
pub open spec fn relationship_edges(rels: Seq<SymbolRelationship>) -> Seq<Edge>
    decreases rels.len(),
{
    if rels.len() == 0 {
        Seq::empty()
    } else {
        relationship_edges(rels.drop_last()) + if spec_is_hard_dependency(rels.last().relationship_type) {
            seq![(rels.last().source@, rels.last().target@)]
        } else {
            Seq::empty()
        }
    }
}

/// A RUN operation evaluated during resolution depends on the variables its
/// parameters name; one that reads objects waits for scan time and adds none.
pub open spec fn run_edges(ops: Seq<RuntimeOperation>) -> Seq<Edge>
    decreases ops.len(),
{
    if ops.len() == 0 {
        Seq::empty()
    } else {
        run_edges(ops.drop_last()) + if params_object_refs(ops.last().parameters@).len() == 0 {
            edges_to(ops.last().target_variable@, params_var_refs(ops.last().parameters@))
        } else {
            Seq::empty()
        }
    }
}

/// A variable initialised from another depends on it.
pub open spec fn init_edges(vars: Seq<VariableDeclaration>) -> Seq<Edge>
    decreases vars.len(),
{
    if vars.len() == 0 {
        Seq::empty()
    } else {
        init_edges(vars.drop_last()) + match init_dependency(vars.last()) {
            Some(r) => seq![(vars.last().name@, r)],
            None => Seq::empty(),
        }
    }
}

/// The symbols an operand of a SET names: an object, a SET, or the variables
/// of an inline object.
pub open spec fn operand_targets(o: SetOperand) -> Seq<Seq<char>> {
    match o {
        SetOperand::ObjectRef(id) => seq![id@],
        SetOperand::SetRef(id) => seq![id@],
        SetOperand::InlineObject(obj) => elements_var_refs(obj.elements@),
    }
}

/// The symbols the operands of a SET name, in order.
pub open spec fn operands_targets(s: Seq<SetOperand>) -> Seq<Seq<char>>
    decreases s.len(),
{
    if s.len() == 0 {
        Seq::empty()
    } else {
        operands_targets(s.drop_last()) + operand_targets(s.last())
    }
}

/// A SET depends on what its operands name, then on the states of its filter.
pub open spec fn set_targets(op: SetOperation) -> Seq<Seq<char>> {
    operands_targets(op.operands@) + match op.filter {
        Some(f) => views(f.state_refs@),
        None => Seq::empty(),
    }
}

/// The edges of the SET operations.
pub open spec fn set_edges(ops: Seq<SetOperation>) -> Seq<Edge>
    decreases ops.len(),
{
    if ops.len() == 0 {
        Seq::empty()
    } else {
        set_edges(ops.drop_last()) + edges_to(ops.last().set_id@, set_targets(ops.last()))
    }
}

/// A global state depends on the variables its fields name.
pub open spec fn state_edges(states: Seq<StateDeclaration>) -> Seq<Edge>
    decreases states.len(),
{
    if states.len() == 0 {
        Seq::empty()
    } else {
        state_edges(states.drop_last()) + edges_to(states.last().identifier@, fields_var_refs(states.last().fields@))
    }
}

/// A global object depends on the variables its fields name.
pub open spec fn object_edges(objects: Seq<ObjectDeclaration>) -> Seq<Edge>
    decreases objects.len(),
{
    if objects.len() == 0 {
        Seq::empty()
    } else {
        object_edges(objects.drop_last()) + edges_to(objects.last().identifier@, elements_var_refs(objects.last().elements@))
    }
}

/// The dependency edges of a context, in the order they enter the graph.
pub open spec fn engine_edges(c: ResolutionContext) -> Seq<Edge> {
    relationship_edges(c.relationships@) + run_edges(c.runtime_operations@) + init_edges(c.variables@)
        + set_edges(c.set_operations@) + state_edges(c.global_states@) + object_edges(c.global_objects@)
}

/// The symbols that `k` depends on along the edges of `e`, in order.
pub open spec fn targets_of(e: Seq<Edge>, k: Seq<char>) -> Seq<Seq<char>>
    decreases e.len(),
{
    if e.len() == 0 {
        Seq::empty()
    } else {
        targets_of(e.drop_last(), k) + if e.last().0 == k { seq![e.last().1] } else { Seq::empty() }
    }
}

/// Both ends of an edge are symbols.
pub open spec fn edge_ok(e: Edge, syms: Seq<Seq<char>>) -> bool {
    syms.contains(e.0) && syms.contains(e.1)
}

/// How adding an edge with a missing end is reported.
pub open spec fn missing_end_message(e: Edge, syms: Seq<Seq<char>>) -> Seq<char> {
    if !syms.contains(e.0) {
        "Dependent symbol '"@ + e.0 + "' not found when adding dependency on '"@ + e.1 + "'"@
    } else {
        "Dependency symbol '"@ + e.1 + "' not found when adding dependency from '"@ + e.0 + "'"@
    }
}

/// The edges as plain values.
pub open spec fn edge_views(s: Seq<(String, String)>) -> Seq<Edge> {
    s.map_values(|p: (String, String)| (p.0@, p.1@))
}

/// Append an edge from `from` to each of `targets`.
fn push_edges(from: &String, targets: &Vec<String>, out: &mut Vec<(String, String)>)
    ensures
        edge_views(final(out)@) == edge_views(old(out)@) + edges_to(from@, views(targets@)),
{
    let ghost start = edge_views(out@);
    let mut i: usize = 0;
    proof {
        assert(edges_to(from@, views(targets@.subrange(0, 0))) =~= Seq::<Edge>::empty());
        assert(edge_views(out@) =~= start + Seq::<Edge>::empty());
    }
    while i < targets.len()
        invariant
            i <= targets@.len(),
            edge_views(out@) == start + edges_to(from@, views(targets@.subrange(0, i as int))),
        decreases targets@.len() - i,
    {
        let ghost before = out@;
        out.push((from.clone(), targets[i].clone()));
        proof {
            assert(edge_views(out@) =~= edge_views(before).push((from@, targets@[i as int]@)));
            assert(views(targets@.subrange(0, i + 1)) =~= views(targets@.subrange(0, i as int)).push(targets@[i as int]@));
            assert(edges_to(from@, views(targets@.subrange(0, i + 1)))
                =~= edges_to(from@, views(targets@.subrange(0, i as int))).push((from@, targets@[i as int]@)));
            assert(edge_views(out@) =~= start + edges_to(from@, views(targets@.subrange(0, i + 1))));
        }
        i = i + 1;
    }
    proof {
        assert(targets@.subrange(0, targets@.len() as int) =~= targets@);
    }
}

/// The variables the parameters of a RUN operation name.
fn param_variables(params: &Vec<RunParameter>) -> (res: Vec<String>)
    ensures
        views(res@) == params_var_refs(params@),
{
    let mut out: Vec<String> = Vec::new();
    let mut i: usize = 0;
    proof {
        assert(params@.subrange(0, 0) =~= Seq::<RunParameter>::empty());
        assert(views(out@) =~= Seq::<Seq<char>>::empty());
    }
    while i < params.len()
        invariant
            i <= params@.len(),
            views(out@) == params_var_refs(params@.subrange(0, i as int)),
        decreases params@.len() - i,
    {
        proof {
            assert(params@.subrange(0, i + 1).drop_last() =~= params@.subrange(0, i as int));
            assert(params@.subrange(0, i + 1).last() == params@[i as int]);
        }
        let ghost before = views(out@);
        match &params[i] {
            RunParameter::Variable(v) => {
                out.push(v.clone());
            },
            RunParameter::ArithmeticOp { operand, .. } => {
                if let Some(n) = operand.get_variable_name() {
                    out.push(n.clone());
                }
            },
            RunParameter::Literal(value) => {
                if let Some(n) = value.get_variable_name() {
                    out.push(n.clone());
                }
            },
            _ => {},
        }
        proof {
            assert(views(out@) =~= before + param_var_refs(params@[i as int]));
        }
        i = i + 1;
    }
    proof {
        assert(params@.subrange(0, params@.len() as int) =~= params@);
    }
    out
}

/// The variables the fields of a state name, in order.
fn field_variables(fields: &Vec<StateField>) -> (res: Vec<String>)
    ensures
        views(res@) == fields_var_refs(fields@),
{
    let mut out: Vec<String> = Vec::new();
    let mut i: usize = 0;
    proof {
        assert(fields@.subrange(0, 0) =~= Seq::<StateField>::empty());
        assert(views(out@) =~= Seq::<Seq<char>>::empty());
    }
    while i < fields.len()
        invariant
            i <= fields@.len(),
            views(out@) == fields_var_refs(fields@.subrange(0, i as int)),
        decreases fields@.len() - i,
    {
        proof {
            assert(fields@.subrange(0, i + 1).drop_last() =~= fields@.subrange(0, i as int));
            assert(fields@.subrange(0, i + 1).last() == fields@[i as int]);
        }
        let ghost before = views(out@);
        if let Some(n) = fields[i].value.get_variable_name() {
            out.push(n.clone());
        }
        proof {
            assert(views(out@) =~= before + value_var_ref(fields@[i as int].value));
        }
        i = i + 1;
    }
    proof {
        assert(fields@.subrange(0, fields@.len() as int) =~= fields@);
    }
    out
}

/// The symbols the operands and the filter of a SET name, in order.
fn set_dependencies(op: &SetOperation) -> (res: Vec<String>)
    ensures
        views(res@) == set_targets(*op),
{
    let mut out: Vec<String> = Vec::new();
    let mut i: usize = 0;
    proof {
        assert(op.operands@.subrange(0, 0) =~= Seq::<SetOperand>::empty());
        assert(views(out@) =~= Seq::<Seq<char>>::empty());
    }
    while i < op.operands.len()
        invariant
            i <= op.operands@.len(),
            views(out@) == operands_targets(op.operands@.subrange(0, i as int)),
        decreases op.operands@.len() - i,
    {
        proof {
            assert(op.operands@.subrange(0, i + 1).drop_last() =~= op.operands@.subrange(0, i as int));
            assert(op.operands@.subrange(0, i + 1).last() == op.operands@[i as int]);
        }
        let ghost before = views(out@);
        match &op.operands[i] {
            SetOperand::ObjectRef(id) => {
                out.push(id.clone());
            },
            SetOperand::SetRef(id) => {
                out.push(id.clone());
            },
            SetOperand::InlineObject(obj) => {
                let mut vars = collect_element_var_refs(&obj.elements);
                proof {
                    assert(views(vars@) =~= vars@.map_values(|r: String| r@));
                }
                out.append(&mut vars);
            },
        }
        proof {
            assert(views(out@) =~= before + operand_targets(op.operands@[i as int]));
        }
        i = i + 1;
    }
    proof {
        assert(op.operands@.subrange(0, op.operands@.len() as int) =~= op.operands@);
    }
    match &op.filter {
        Some(f) => {
            let ghost before = views(out@);
            let mut j: usize = 0;
            while j < f.state_refs.len()
                invariant
                    j <= f.state_refs@.len(),
                    views(out@) == before + views(f.state_refs@.subrange(0, j as int)),
                decreases f.state_refs@.len() - j,
            {
                let ghost prev = out@;
                out.push(f.state_refs[j].clone());
                proof {
                    assert(views(out@) =~= views(prev).push(f.state_refs@[j as int]@));
                    assert(views(f.state_refs@.subrange(0, j + 1))
                        =~= views(f.state_refs@.subrange(0, j as int)).push(f.state_refs@[j as int]@));
                    assert(views(out@) =~= before + views(f.state_refs@.subrange(0, j + 1)));
                }
                j = j + 1;
            }
            proof {
                assert(f.state_refs@.subrange(0, f.state_refs@.len() as int) =~= f.state_refs@);
            }
        },
        None => {
            proof {
                assert(views(out@) =~= views(out@) + Seq::<Seq<char>>::empty());
            }
        },
    }
    out
}

/// The dependency edges of a context, in the order they enter the graph.
fn collect_engine_edges(context: &ResolutionContext) -> (res: Vec<(String, String)>)
    ensures
        edge_views(res@) == engine_edges(*context),
{
    let mut out: Vec<(String, String)> = Vec::new();
    proof {
        assert(edge_views(out@) =~= Seq::<Edge>::empty());
    }
    // Hard relationships of the symbol table.
    let rels = &context.relationships;
    let mut i: usize = 0;
    while i < rels.len()
        invariant
            i <= rels@.len(),
            rels == &context.relationships,
            edge_views(out@) == relationship_edges(rels@.subrange(0, i as int)),
        decreases rels@.len() - i,
    {
        proof {
            assert(rels@.subrange(0, i + 1).drop_last() =~= rels@.subrange(0, i as int));
            assert(rels@.subrange(0, i + 1).last() == rels@[i as int]);
        }
        let ghost before = edge_views(out@);
        if rels[i].relationship_type.is_hard_dependency() {
            out.push((rels[i].source.clone(), rels[i].target.clone()));
        }
        proof {
            assert(edge_views(out@) =~= relationship_edges(rels@.subrange(0, i + 1)));
        }
        i = i + 1;
    }
    proof {
        assert(rels@.subrange(0, rels@.len() as int) =~= rels@);
    }
    let ghost e1 = edge_views(out@);
    // RUN operations evaluated during resolution.
    let ops = &context.runtime_operations;
    let mut i: usize = 0;
    proof {
        assert(ops@.subrange(0, 0) =~= Seq::<RuntimeOperation>::empty());
        assert(edge_views(out@) =~= e1 + run_edges(ops@.subrange(0, 0)));
    }
    while i < ops.len()
        invariant
            i <= ops@.len(),
            ops == &context.runtime_operations,
            edge_views(out@) == e1 + run_edges(ops@.subrange(0, i as int)),
        decreases ops@.len() - i,
    {
        proof {
            assert(ops@.subrange(0, i + 1).drop_last() =~= ops@.subrange(0, i as int));
            assert(ops@.subrange(0, i + 1).last() == ops@[i as int]);
        }
        let ghost before = edge_views(out@);
        match ops[i].categorize() {
            crate::types::runtime_operation::OperationCategory::ResolutionTime => {
                let vars = param_variables(&ops[i].parameters);
                push_edges(&ops[i].target_variable, &vars, &mut out);
            },
            crate::types::runtime_operation::OperationCategory::ScanTime => {},
        }
        proof {
            assert(edge_views(out@) =~= e1 + run_edges(ops@.subrange(0, i + 1)));
        }
        i = i + 1;
    }
    proof {
        assert(ops@.subrange(0, ops@.len() as int) =~= ops@);
    }
    let ghost e2 = edge_views(out@);
    // Variables initialised from other variables.
    let vars = &context.variables;
    let mut i: usize = 0;
    proof {
        assert(vars@.subrange(0, 0) =~= Seq::<VariableDeclaration>::empty());
        assert(edge_views(out@) =~= e2 + init_edges(vars@.subrange(0, 0)));
    }
    while i < vars.len()
        invariant
            i <= vars@.len(),
            vars == &context.variables,
            edge_views(out@) == e2 + init_edges(vars@.subrange(0, i as int)),
        decreases vars@.len() - i,
    {
        proof {
            assert(vars@.subrange(0, i + 1).drop_last() =~= vars@.subrange(0, i as int));
            assert(vars@.subrange(0, i + 1).last() == vars@[i as int]);
        }
        let ghost before = out@;
        if let Some(r) = vars[i].get_variable_reference() {
            out.push((vars[i].name.clone(), String::from_str(r)));
            proof {
                assert(edge_views(out@) =~= edge_views(before).push((vars@[i as int].name@, r@)));
            }
        }
        proof {
            assert(edge_views(out@) =~= e2 + init_edges(vars@.subrange(0, i + 1)));
        }
        i = i + 1;
    }
    proof {
        assert(vars@.subrange(0, vars@.len() as int) =~= vars@);
    }
    let ghost e3 = edge_views(out@);
    // SET operations: their operands and filters.
    let sets = &context.set_operations;
    let mut i: usize = 0;
    proof {
        assert(sets@.subrange(0, 0) =~= Seq::<SetOperation>::empty());
        assert(edge_views(out@) =~= e3 + set_edges(sets@.subrange(0, 0)));
    }
    while i < sets.len()
        invariant
            i <= sets@.len(),
            sets == &context.set_operations,
            edge_views(out@) == e3 + set_edges(sets@.subrange(0, i as int)),
        decreases sets@.len() - i,
    {
        proof {
            assert(sets@.subrange(0, i + 1).drop_last() =~= sets@.subrange(0, i as int));
            assert(sets@.subrange(0, i + 1).last() == sets@[i as int]);
        }
        let deps = set_dependencies(&sets[i]);
        push_edges(&sets[i].set_id, &deps, &mut out);
        proof {
            assert(edge_views(out@) =~= e3 + set_edges(sets@.subrange(0, i + 1)));
        }
        i = i + 1;
    }
    proof {
        assert(sets@.subrange(0, sets@.len() as int) =~= sets@);
    }
    let ghost e4 = edge_views(out@);
    // Global states on the variables of their fields.
    let states = &context.global_states;
    let mut i: usize = 0;
    proof {
        assert(states@.subrange(0, 0) =~= Seq::<StateDeclaration>::empty());
        assert(edge_views(out@) =~= e4 + state_edges(states@.subrange(0, 0)));
    }
    while i < states.len()
        invariant
            i <= states@.len(),
            states == &context.global_states,
            edge_views(out@) == e4 + state_edges(states@.subrange(0, i as int)),
        decreases states@.len() - i,
    {
        proof {
            assert(states@.subrange(0, i + 1).drop_last() =~= states@.subrange(0, i as int));
            assert(states@.subrange(0, i + 1).last() == states@[i as int]);
        }
        let deps = field_variables(&states[i].fields);
        push_edges(&states[i].identifier, &deps, &mut out);
        proof {
            assert(edge_views(out@) =~= e4 + state_edges(states@.subrange(0, i + 1)));
        }
        i = i + 1;
    }
    proof {
        assert(states@.subrange(0, states@.len() as int) =~= states@);
    }
    let ghost e5 = edge_views(out@);
    // Global objects on the variables of their fields.
    let objects = &context.global_objects;
    let mut i: usize = 0;
    proof {
        assert(objects@.subrange(0, 0) =~= Seq::<ObjectDeclaration>::empty());
        assert(edge_views(out@) =~= e5 + object_edges(objects@.subrange(0, 0)));
    }
    while i < objects.len()
        invariant
            i <= objects@.len(),
            objects == &context.global_objects,
            edge_views(out@) == e5 + object_edges(objects@.subrange(0, i as int)),
        decreases objects@.len() - i,
    {
        proof {
            assert(objects@.subrange(0, i + 1).drop_last() =~= objects@.subrange(0, i as int));
            assert(objects@.subrange(0, i + 1).last() == objects@[i as int]);
        }
        let deps = objects[i].get_variable_references();
        proof {
            assert(views(deps@) =~= deps@.map_values(|r: String| r@));
        }
        push_edges(&objects[i].identifier, &deps, &mut out);
        proof {
            assert(edge_views(out@) =~= e5 + object_edges(objects@.subrange(0, i + 1)));
        }
        i = i + 1;
    }
    proof {
        assert(objects@.subrange(0, objects@.len() as int) =~= objects@);
        assert(edge_views(out@) =~= engine_edges(*context));
    }
    out
}

/// Add a node of type `t` for each of `ids`; symbols already present stay as
/// they are.
fn add_symbol_nodes(graph: &mut DependencyGraph, ids: &Vec<String>, t: SymbolType)
    requires
        old(graph).wf(),
        forall|k: Seq<char>| old(graph).is_node(k) ==> old(graph).deps(k).len() == 0,
    ensures
        final(graph).wf(),
        forall|x: Seq<char>| final(graph).is_node(x) <==> (old(graph).is_node(x) || views(ids@).contains(x)),
        forall|k: Seq<char>| final(graph).is_node(k) ==> final(graph).deps(k).len() == 0,
{
    let mut i: usize = 0;
    while i < ids.len()
        invariant
            i <= ids@.len(),
            graph.wf(),
            forall|x: Seq<char>| graph.is_node(x) <==> (old(graph).is_node(x) || views(ids@.subrange(0, i as int)).contains(x)),
            forall|k: Seq<char>| graph.is_node(k) ==> graph.deps(k).len() == 0,
        decreases ids@.len() - i,
    {
        let ghost g0 = *graph;
        let _ = graph.add_node(ids[i].clone(), t);
        proof {
            assert(views(ids@.subrange(0, i + 1)) =~= views(ids@.subrange(0, i as int)).push(ids@[i as int]@));
            assert forall|x: Seq<char>| graph.is_node(x) <==> (old(graph).is_node(x)
                || views(ids@.subrange(0, i + 1)).contains(x)) by {
                lemma_push_contains(views(ids@.subrange(0, i as int)), ids@[i as int]@, x);
                if !g0.is_node(ids@[i as int]@) {
                    assert(graph.node_keys() == g0.node_keys().push(ids@[i as int]@));
                    lemma_push_contains(g0.node_keys(), ids@[i as int]@, x);
                }
            }
            assert forall|k: Seq<char>| graph.is_node(k) implies graph.deps(k).len() == 0 by {
                if !g0.is_node(ids@[i as int]@) {
                    assert(graph.node_keys() == g0.node_keys().push(ids@[i as int]@));
                    if k != ids@[i as int]@ {
                        lemma_push_contains(g0.node_keys(), ids@[i as int]@, k);
                        assert(g0.node_keys().contains(k));
                        assert(g0.is_node(k));
                    }
                }
            }
        }
        i = i + 1;
    }
    proof {
        assert(ids@.subrange(0, ids@.len() as int) =~= ids@);
    }
}

/// A symbol is in a sequence with one more entry when it is in the sequence
/// or is that entry.
proof fn lemma_push_contains(a: Seq<Seq<char>>, y: Seq<char>, x: Seq<char>)
    ensures
        a.push(y).contains(x) <==> (a.contains(x) || x == y),
{
    if a.contains(x) {
        let i = choose|i: int| 0 <= i < a.len() && a[i] == x;
        assert(a.push(y)[i] == x);
    }
    if x == y {
        assert(a.push(y)[a.len() as int] == x);
    }
    if a.push(y).contains(x) {
        let i = choose|i: int| 0 <= i < a.push(y).len() && a.push(y)[i] == x;
        if i < a.len() {
            assert(a[i] == x);
        }
    }
}

/// A symbol is in a concatenation when it is in one of its parts.
proof fn lemma_concat_contains(a: Seq<Seq<char>>, b: Seq<Seq<char>>, x: Seq<char>)
    ensures
        (a + b).contains(x) <==> (a.contains(x) || b.contains(x)),
{
    if a.contains(x) {
        let i = choose|i: int| 0 <= i < a.len() && a[i] == x;
        assert((a + b)[i] == x);
    }
    if b.contains(x) {
        let i = choose|i: int| 0 <= i < b.len() && b[i] == x;
        assert((a + b)[a.len() + i] == x);
    }
    if (a + b).contains(x) {
        let i = choose|i: int| 0 <= i < (a + b).len() && (a + b)[i] == x;
        if i < a.len() {
            assert(a[i] == x);
        } else {
            assert(b[i - a.len()] == x);
        }
    }
}

/// The resolution engine of the global and local symbols of a definition.
#[derive(Debug)]
pub struct ResolutionEngine {
    field_resolver: FieldResolver,
}

impl ResolutionEngine {
    /// An engine. It holds nothing but a field resolver, which has no
    /// state, so every engine behaves the same.
    pub fn new() -> (res: ResolutionEngine) {
        ResolutionEngine { field_resolver: FieldResolver::new() }
    }

    /// Build the dependency graph of the global symbols: a node for each
    /// variable, RUN target, state, object and SET, then an edge for each hard
    /// relationship of the symbol table, each variable a RUN operation
    /// evaluated during resolution reads, each variable another is
    /// initialised from, each symbol a SET names, and each variable a global
    /// state or object refers to. An edge with an end that is no symbol is
    /// an error.
    fn build_dependency_graph(&self, context: &ResolutionContext) -> (res: Result<DependencyGraph, ResolutionError>)
        ensures
            match res {
                Ok(g) => {
                    &&& g.wf()
                    &&& forall|x: Seq<char>| g.is_node(x) <==> engine_symbols(*context).contains(x)
                    &&& forall|k: Seq<char>| g.is_node(k) ==> g.deps(k) == targets_of(engine_edges(*context), k)
                    &&& forall|i: int| 0 <= i < engine_edges(*context).len()
                        ==> edge_ok(#[trigger] engine_edges(*context)[i], engine_symbols(*context))
                },
                Err(e) => exists|i: int| #![trigger engine_edges(*context)[i]]
                    0 <= i < engine_edges(*context).len()
                    && (forall|j: int| 0 <= j < i ==> edge_ok(#[trigger] engine_edges(*context)[j], engine_symbols(*context)))
                    && !edge_ok(engine_edges(*context)[i], engine_symbols(*context))
                    && e == (ResolutionError::DependencyGraphCorrupted { details: e->details })
                    && e->details@ == missing_end_message(engine_edges(*context)[i], engine_symbols(*context)),
            },
    {
        let ghost syms = engine_symbols(*context);
        let mut graph = DependencyGraph::new();
        let ghost g_empty = graph;
        let mut names: Vec<String> = Vec::new();
        let mut i: usize = 0;
        while i < context.variables.len()
            invariant
                i <= context.variables@.len(),
                views(names@) == context.variables@.subrange(0, i as int).map_values(|v: VariableDeclaration| v.name@),
            decreases context.variables@.len() - i,
        {
            names.push(context.variables[i].name.clone());
            proof {
                assert(context.variables@.subrange(0, i + 1).map_values(|v: VariableDeclaration| v.name@)
                    =~= context.variables@.subrange(0, i as int).map_values(|v: VariableDeclaration| v.name@).push(
                        context.variables@[i as int].name@));
                assert(views(names@) =~= context.variables@.subrange(0, i as int).map_values(|v: VariableDeclaration| v.name@).push(
                        context.variables@[i as int].name@));
            }
            i = i + 1;
        }
        proof {
            assert(context.variables@.subrange(0, context.variables@.len() as int) =~= context.variables@);
        }
        add_symbol_nodes(&mut graph, &names, SymbolType::Variable);
        let mut targets: Vec<String> = Vec::new();
        let mut i: usize = 0;
        while i < context.runtime_operations.len()
            invariant
                i <= context.runtime_operations@.len(),
                views(targets@) == context.runtime_operations@.subrange(0, i as int).map_values(|r: RuntimeOperation| r.target_variable@),
            decreases context.runtime_operations@.len() - i,
        {
            targets.push(context.runtime_operations[i].target_variable.clone());
            proof {
                assert(context.runtime_operations@.subrange(0, i + 1).map_values(|r: RuntimeOperation| r.target_variable@)
                    =~= context.runtime_operations@.subrange(0, i as int).map_values(|r: RuntimeOperation| r.target_variable@).push(
                        context.runtime_operations@[i as int].target_variable@));
                assert(views(targets@) =~= context.runtime_operations@.subrange(0, i as int).map_values(|r: RuntimeOperation| r.target_variable@).push(
                        context.runtime_operations@[i as int].target_variable@));
            }
            i = i + 1;
        }
        proof {
            assert(context.runtime_operations@.subrange(0, context.runtime_operations@.len() as int) =~= context.runtime_operations@);
        }
        add_symbol_nodes(&mut graph, &targets, SymbolType::Variable);
        let mut sids: Vec<String> = Vec::new();
        let mut i: usize = 0;
        while i < context.global_states.len()
            invariant
                i <= context.global_states@.len(),
                views(sids@) == context.global_states@.subrange(0, i as int).map_values(|s: StateDeclaration| s.identifier@),
            decreases context.global_states@.len() - i,
        {
            sids.push(context.global_states[i].identifier.clone());
            proof {
                assert(context.global_states@.subrange(0, i + 1).map_values(|s: StateDeclaration| s.identifier@)
                    =~= context.global_states@.subrange(0, i as int).map_values(|s: StateDeclaration| s.identifier@).push(
                        context.global_states@[i as int].identifier@));
                assert(views(sids@) =~= context.global_states@.subrange(0, i as int).map_values(|s: StateDeclaration| s.identifier@).push(
                        context.global_states@[i as int].identifier@));
            }
            i = i + 1;
        }
        proof {
            assert(context.global_states@.subrange(0, context.global_states@.len() as int) =~= context.global_states@);
        }
        add_symbol_nodes(&mut graph, &sids, SymbolType::GlobalState);
        let mut oids: Vec<String> = Vec::new();
        let mut i: usize = 0;
        while i < context.global_objects.len()
            invariant
                i <= context.global_objects@.len(),
                views(oids@) == context.global_objects@.subrange(0, i as int).map_values(|o: ObjectDeclaration| o.identifier@),
            decreases context.global_objects@.len() - i,
        {
            oids.push(context.global_objects[i].identifier.clone());
            proof {
                assert(context.global_objects@.subrange(0, i + 1).map_values(|o: ObjectDeclaration| o.identifier@)
                    =~= context.global_objects@.subrange(0, i as int).map_values(|o: ObjectDeclaration| o.identifier@).push(
                        context.global_objects@[i as int].identifier@));
                assert(views(oids@) =~= context.global_objects@.subrange(0, i as int).map_values(|o: ObjectDeclaration| o.identifier@).push(
                        context.global_objects@[i as int].identifier@));
            }
            i = i + 1;
        }
        proof {
            assert(context.global_objects@.subrange(0, context.global_objects@.len() as int) =~= context.global_objects@);
        }
        add_symbol_nodes(&mut graph, &oids, SymbolType::GlobalObject);
        let mut setids: Vec<String> = Vec::new();
        let mut i: usize = 0;
        while i < context.set_operations.len()
            invariant
                i <= context.set_operations@.len(),
                views(setids@) == context.set_operations@.subrange(0, i as int).map_values(|s: SetOperation| s.set_id@),
            decreases context.set_operations@.len() - i,
        {
            setids.push(context.set_operations[i].set_id.clone());
            proof {
                assert(context.set_operations@.subrange(0, i + 1).map_values(|s: SetOperation| s.set_id@)
                    =~= context.set_operations@.subrange(0, i as int).map_values(|s: SetOperation| s.set_id@).push(
                        context.set_operations@[i as int].set_id@));
                assert(views(setids@) =~= context.set_operations@.subrange(0, i as int).map_values(|s: SetOperation| s.set_id@).push(
                        context.set_operations@[i as int].set_id@));
            }
            i = i + 1;
        }
        proof {
            assert(context.set_operations@.subrange(0, context.set_operations@.len() as int) =~= context.set_operations@);
        }
        add_symbol_nodes(&mut graph, &setids, SymbolType::SetOperation);
        proof {
            assert(syms =~= views(names@) + views(targets@) + views(sids@) + views(oids@) + views(setids@));
            assert forall|x: Seq<char>| graph.is_node(x) <==> syms.contains(x) by {
                assert(!g_empty.is_node(x));
                lemma_concat_contains(views(names@), views(targets@), x);
                lemma_concat_contains(views(names@) + views(targets@), views(sids@), x);
                lemma_concat_contains(views(names@) + views(targets@) + views(sids@), views(oids@), x);
                lemma_concat_contains(views(names@) + views(targets@) + views(sids@) + views(oids@), views(setids@), x);
            }
        }
        let edges = collect_engine_edges(context);
        let ghost all = edge_views(edges@);
        let mut i: usize = 0;
        proof {
            assert forall|k: Seq<char>| graph.is_node(k) implies graph.deps(k) == targets_of(all.subrange(0, 0), k) by {
                assert(all.subrange(0, 0) =~= Seq::<Edge>::empty());
                assert(graph.deps(k) =~= Seq::<Seq<char>>::empty());
            }
        }
        while i < edges.len()
            invariant
                i <= edges@.len(),
                all == edge_views(edges@),
                all == engine_edges(*context),
                syms == engine_symbols(*context),
                graph.wf(),
                forall|x: Seq<char>| graph.is_node(x) <==> syms.contains(x),
                forall|k: Seq<char>| graph.is_node(k) ==> graph.deps(k) == targets_of(all.subrange(0, i as int), k),
                forall|j: int| 0 <= j < i ==> edge_ok(#[trigger] all[j], syms),
            decreases edges@.len() - i,
        {
            let ghost g0 = graph;
            let ghost sub = all.subrange(0, i + 1);
            proof {
                assert(sub.drop_last() =~= all.subrange(0, i as int));
                assert(sub.last() == all[i as int]);
                assert(all[i as int] == (edges@[i as int].0@, edges@[i as int].1@));
            }
            match graph.add_dependency(edges[i].0.as_str(), edges[i].1.as_str()) {
                Ok(()) => {
                    proof {
                        assert forall|k: Seq<char>| graph.is_node(k) implies graph.deps(k) == targets_of(sub, k) by {
                            assert(g0.is_node(k));
                        }
                    }
                },
                Err(e) => {
                    proof {
                        assert(!edge_ok(all[i as int], syms));
                    }
                    return Err(e);
                },
            }
            i = i + 1;
        }
        proof {
            assert(all.subrange(0, all.len() as int) =~= all);
            lemma_wf_graph_validates(graph);
        }
        graph.validate()?;
        Ok(graph)
    }
}

// ---------------------------------------------------------------------------
// Resolving the values of declarations
// ---------------------------------------------------------------------------

/// The state field resolves to `r`: its value resolved, the rest kept.
pub open spec fn resolved_state_field(f: StateField, vars: StringMap<ResolvedVariable>, r: ResolvedStateField) -> bool {
    &&& r.name == f.name
    &&& r.data_type == f.data_type
    &&& r.operation == f.operation
    &&& field_value(f.value, vars) == Some(r.value)
    &&& r.entity_check == f.entity_check
}

/// The record field resolves to `r`.
pub open spec fn resolved_record_field(f: RecordField, vars: StringMap<ResolvedVariable>, r: ResolvedRecordField) -> bool {
    &&& r.path.components@ == f.path.components@
    &&& r.data_type == f.data_type
    &&& r.operation == f.operation
    &&& field_value(f.value, vars) == Some(r.value)
    &&& r.entity_check == f.entity_check
}

/// Every value of a record check names a resolved variable, if any.
pub open spec fn record_check_resolves(rc: RecordCheck, vars: StringMap<ResolvedVariable>) -> bool {
    match rc.content {
        RecordContent::Direct { value, .. } => field_value(value, vars) is Some,
        RecordContent::Nested { fields } => forall|i: int| 0 <= i < fields@.len()
            ==> field_value(#[trigger] fields@[i].value, vars) is Some,
    }
}

/// The record check resolves to `r`.
pub open spec fn resolved_record_check(rc: RecordCheck, vars: StringMap<ResolvedVariable>, r: ResolvedRecordCheck) -> bool {
    &&& r.data_type == rc.data_type
    &&& match rc.content {
        RecordContent::Direct { operation, value } => r.content == (ResolvedRecordContent::Direct {
            operation,
            value: field_value(value, vars)->Some_0,
        }),
        RecordContent::Nested { fields } => r.content matches ResolvedRecordContent::Nested { fields: rf }
            && rf@.len() == fields@.len()
            && forall|i: int| 0 <= i < fields@.len() ==> resolved_record_field(fields@[i], vars, #[trigger] rf@[i]),
    }
}

/// Every value of a state names a resolved variable, if any.
pub open spec fn state_resolves(st: StateDeclaration, vars: StringMap<ResolvedVariable>) -> bool {
    &&& forall|i: int| 0 <= i < st.fields@.len() ==> field_value(#[trigger] st.fields@[i].value, vars) is Some
    &&& forall|i: int| 0 <= i < st.record_checks@.len() ==> record_check_resolves(#[trigger] st.record_checks@[i], vars)
}

/// The state resolves to `r`: each field and record check in order.
pub open spec fn resolved_state(st: StateDeclaration, vars: StringMap<ResolvedVariable>, r: ResolvedState) -> bool {
    &&& r.identifier == st.identifier
    &&& r.is_global == st.is_global
    &&& r.resolved_fields@.len() == st.fields@.len()
    &&& forall|i: int| 0 <= i < st.fields@.len() ==> resolved_state_field(st.fields@[i], vars, #[trigger] r.resolved_fields@[i])
    &&& r.resolved_record_checks@.len() == st.record_checks@.len()
    &&& forall|i: int| 0 <= i < st.record_checks@.len()
        ==> resolved_record_check(st.record_checks@[i], vars, #[trigger] r.resolved_record_checks@[i])
}

/// An object element whose value names a resolved variable, if any.
pub open spec fn element_resolves(e: ObjectElement, vars: StringMap<ResolvedVariable>) -> bool {
    match e {
        ObjectElement::Field { value, .. } => field_value(value, vars) is Some,
        _ => true,
    }
}

/// The element resolves to `r`: a field takes its resolved value, parameter
/// and select pairs become record data, everything else is kept.
pub open spec fn resolved_element(e: ObjectElement, vars: StringMap<ResolvedVariable>, r: ResolvedObjectElement) -> bool {
    match e {
        ObjectElement::Field { name, value } => r == (ResolvedObjectElement::Field { name, value: field_value(value, vars)->Some_0 }),
        ObjectElement::SetRef { set_id } => r == (ResolvedObjectElement::SetRef { set_id }),
        ObjectElement::Filter(f) => r matches ResolvedObjectElement::Filter(rf) && rf.action == f.action
            && rf.state_refs@ == f.state_refs@,
        ObjectElement::Module { field, value } => r == (ResolvedObjectElement::Module { field, value }),
        ObjectElement::Parameter { data_type, fields } => r matches ResolvedObjectElement::Parameter { data_type: d, data }
            && d == data_type && data.fields@ == fields@,
        ObjectElement::Select { data_type, fields } => r matches ResolvedObjectElement::Select { data_type: d, data }
            && d == data_type && data.fields@ == fields@,
        ObjectElement::Behavior { values } => r matches ResolvedObjectElement::Behavior { values: v } && v@ == values@,
    }
}

/// Every field of an object names a resolved variable, if any.
pub open spec fn object_resolves(o: ObjectDeclaration, vars: StringMap<ResolvedVariable>) -> bool {
    forall|i: int| 0 <= i < o.elements@.len() ==> element_resolves(#[trigger] o.elements@[i], vars)
}

/// The object resolves to `r`: each element in order.
pub open spec fn resolved_object(o: ObjectDeclaration, vars: StringMap<ResolvedVariable>, r: ResolvedObject) -> bool {
    &&& r.identifier == o.identifier
    &&& r.is_global == o.is_global
    &&& r.resolved_elements@.len() == o.elements@.len()
    &&& forall|i: int| 0 <= i < o.elements@.len() ==> resolved_element(o.elements@[i], vars, #[trigger] r.resolved_elements@[i])
}

/// A failure to resolve a value names a variable that is not resolved.
pub open spec fn unresolved_error(e: ResolutionError, vars: StringMap<ResolvedVariable>) -> bool {
    e matches ResolutionError::FieldResolution(crate::resolution::error::FieldResolutionError::VariableReferenceNotAllowed {
        variable_name, .. }) && !vars.has(variable_name@)
}

/// The variable that a failure to resolve a value names.
pub open spec fn err_var(e: ResolutionError) -> Seq<char> {
    match e {
        ResolutionError::FieldResolution(crate::resolution::error::FieldResolutionError::VariableReferenceNotAllowed {
            variable_name, .. }) => variable_name@,
        _ => Seq::empty(),
    }
}

/// The value reads the variable `n`, which is not resolved.
pub open spec fn value_unresolved(v: Value, vars: StringMap<ResolvedVariable>, n: Seq<char>) -> bool {
    v matches Value::Variable(x) && x@ == n && !vars.has(n)
}

/// A value of the record check reads the variable `n`, which is not resolved.
pub open spec fn record_unresolved(rc: RecordCheck, vars: StringMap<ResolvedVariable>, n: Seq<char>) -> bool {
    match rc.content {
        RecordContent::Direct { value, .. } => value_unresolved(value, vars, n),
        RecordContent::Nested { fields } => exists|i: int| 0 <= i < fields@.len()
            && #[trigger] value_unresolved(fields@[i].value, vars, n),
    }
}

/// A field or record check of the state reads the variable `n`, which is not resolved.
pub open spec fn state_unresolved(st: StateDeclaration, vars: StringMap<ResolvedVariable>, n: Seq<char>) -> bool {
    ||| exists|i: int| 0 <= i < st.fields@.len() && #[trigger] value_unresolved(st.fields@[i].value, vars, n)
    ||| exists|i: int| 0 <= i < st.record_checks@.len() && #[trigger] record_unresolved(st.record_checks@[i], vars, n)
}

/// A field of the object reads the variable `n`, which is not resolved.
pub open spec fn element_unresolved(e: ObjectElement, vars: StringMap<ResolvedVariable>, n: Seq<char>) -> bool {
    e matches ObjectElement::Field { value, .. } && value_unresolved(value, vars, n)
}

/// A field of the object reads the variable `n`, which is not resolved.
pub open spec fn object_unresolved(o: ObjectDeclaration, vars: StringMap<ResolvedVariable>, n: Seq<char>) -> bool {
    exists|i: int| 0 <= i < o.elements@.len() && #[trigger] element_unresolved(o.elements@[i], vars, n)
}

impl FieldPath {
    /// The path written with dots between its components.
    pub fn to_dot_notation(&self) -> (res: String)
        ensures
            res@ == join_sep(views(self.components@), "."@),
    {
        join_strings(&self.components, ".")
    }

    /// A copy of the path.
    pub fn copy(&self) -> (res: FieldPath)
        ensures
            res.components@ == self.components@,
    {
        FieldPath { components: clone_strings(&self.components) }
    }
}

/// The value resolved, as the field resolver gives it, with its failure
/// turned into a resolution error.
fn resolve(resolver: &FieldResolver, value: &Value, what: &str, vars: &StringMap<ResolvedVariable>)
    -> (res: Result<ResolvedValue, ResolutionError>)
    requires
        vars.wf(),
    ensures
        match field_value(*value, *vars) {
            Some(v) => res == Ok::<ResolvedValue, ResolutionError>(v),
            None => res matches Err(e) && unresolved_error(e, *vars) && value_unresolved(*value, *vars, err_var(e)),
        },
{
    match resolver.resolve_value(value, what, vars) {
        Ok(v) => Ok(v),
        Err(e) => Err(ResolutionError::FieldResolution(e)),
    }
}

impl ResolutionEngine {
    /// Resolve a state field.
    fn resolve_single_state_field(&self, field: &StateField, resolved_variables: &StringMap<ResolvedVariable>)
        -> (res: Result<ResolvedStateField, ResolutionError>)
        requires
            resolved_variables.wf(),
        ensures
            match res {
                Ok(r) => resolved_state_field(*field, *resolved_variables, r),
                Err(e) => field_value(field.value, *resolved_variables) is None && unresolved_error(e, *resolved_variables)
                    && value_unresolved(field.value, *resolved_variables, err_var(e)),
            },
    {
        let what = concat3("state field '", field.name.as_str(), "'");
        let value = resolve(&self.field_resolver, &field.value, what.as_str(), resolved_variables)?;
        Ok(ResolvedStateField {
            name: field.name.clone(),
            data_type: field.data_type,
            operation: field.operation,
            value,
            entity_check: field.entity_check,
        })
    }

    /// Resolve a record check: its direct value, or each of its fields.
    fn resolve_record_check(&self, record_check: &RecordCheck, resolved_variables: &StringMap<ResolvedVariable>)
        -> (res: Result<ResolvedRecordCheck, ResolutionError>)
        requires
            resolved_variables.wf(),
        ensures
            match res {
                Ok(r) => record_check_resolves(*record_check, *resolved_variables)
                    && resolved_record_check(*record_check, *resolved_variables, r),
                Err(e) => !record_check_resolves(*record_check, *resolved_variables) && unresolved_error(e, *resolved_variables)
                    && record_unresolved(*record_check, *resolved_variables, err_var(e)),
            },
    {
        let content = match &record_check.content {
            RecordContent::Direct { operation, value } => {
                let v = resolve(&self.field_resolver, value, "record direct operation", resolved_variables)?;
                ResolvedRecordContent::Direct { operation: *operation, value: v }
            },
            RecordContent::Nested { fields } => {
                let mut out: Vec<ResolvedRecordField> = Vec::new();
                let mut i: usize = 0;
                while i < fields.len()
                    invariant
                        i <= fields@.len(),
                        resolved_variables.wf(),
                        record_check.content matches RecordContent::Nested { fields: fs } && fs == *fields,
                        out@.len() == i,
                        forall|k: int| 0 <= k < i ==> field_value(#[trigger] fields@[k].value, *resolved_variables) is Some,
                        forall|k: int| 0 <= k < i ==> resolved_record_field(fields@[k], *resolved_variables, #[trigger] out@[k]),
                    decreases fields@.len() - i,
                {
                    let f = &fields[i];
                    let path = f.path.to_dot_notation();
                    let what = concat3("record field '", path.as_str(), "'");
                    let v = match resolve(&self.field_resolver, &f.value, what.as_str(), resolved_variables) {
                        Ok(v) => v,
                        Err(e) => {
                            proof {
                                assert(value_unresolved(fields@[i as int].value, *resolved_variables, err_var(e)));
                            }
                            return Err(e);
                        },
                    };
                    out.push(ResolvedRecordField {
                        path: f.path.copy(),
                        data_type: f.data_type,
                        operation: f.operation,
                        value: v,
                        entity_check: f.entity_check,
                    });
                    i = i + 1;
                }
                ResolvedRecordContent::Nested { fields: out }
            },
        };
        Ok(ResolvedRecordCheck { data_type: record_check.data_type, content })
    }

    /// Resolve the fields and record checks of a state, in order.
    fn resolve_state_fields(&self, state: &StateDeclaration, resolved_variables: &StringMap<ResolvedVariable>)
        -> (res: Result<ResolvedState, ResolutionError>)
        requires
            resolved_variables.wf(),
        ensures
            match res {
                Ok(r) => state_resolves(*state, *resolved_variables) && resolved_state(*state, *resolved_variables, r),
                Err(e) => !state_resolves(*state, *resolved_variables) && unresolved_error(e, *resolved_variables)
                    && state_unresolved(*state, *resolved_variables, err_var(e)),
            },
    {
        let mut fields: Vec<ResolvedStateField> = Vec::new();
        let mut i: usize = 0;
        while i < state.fields.len()
            invariant
                i <= state.fields@.len(),
                resolved_variables.wf(),
                fields@.len() == i,
                forall|k: int| 0 <= k < i ==> field_value(#[trigger] state.fields@[k].value, *resolved_variables) is Some,
                forall|k: int| 0 <= k < i ==> resolved_state_field(state.fields@[k], *resolved_variables, #[trigger] fields@[k]),
            decreases state.fields@.len() - i,
        {
            let r = match self.resolve_single_state_field(&state.fields[i], resolved_variables) {
                Ok(r) => r,
                Err(e) => {
                    proof {
                        assert(value_unresolved(state.fields@[i as int].value, *resolved_variables, err_var(e)));
                    }
                    return Err(e);
                },
            };
            fields.push(r);
            i = i + 1;
        }
        let mut checks: Vec<ResolvedRecordCheck> = Vec::new();
        let mut j: usize = 0;
        while j < state.record_checks.len()
            invariant
                j <= state.record_checks@.len(),
                resolved_variables.wf(),
                checks@.len() == j,
                forall|k: int| 0 <= k < j ==> record_check_resolves(#[trigger] state.record_checks@[k], *resolved_variables),
                forall|k: int| 0 <= k < j ==> resolved_record_check(state.record_checks@[k], *resolved_variables, #[trigger] checks@[k]),
            decreases state.record_checks@.len() - j,
        {
            let r = match self.resolve_record_check(&state.record_checks[j], resolved_variables) {
                Ok(r) => r,
                Err(e) => {
                    proof {
                        assert(record_unresolved(state.record_checks@[j as int], *resolved_variables, err_var(e)));
                    }
                    return Err(e);
                },
            };
            checks.push(r);
            j = j + 1;
        }
        Ok(ResolvedState {
            identifier: state.identifier.clone(),
            resolved_fields: fields,
            resolved_record_checks: checks,
            is_global: state.is_global,
        })
    }

    /// Resolve the elements of an object, in order.
    fn resolve_object_fields(&self, object: &ObjectDeclaration, resolved_variables: &StringMap<ResolvedVariable>)
        -> (res: Result<ResolvedObject, ResolutionError>)
        requires
            resolved_variables.wf(),
        ensures
            match res {
                Ok(r) => object_resolves(*object, *resolved_variables) && resolved_object(*object, *resolved_variables, r),
                Err(e) => !object_resolves(*object, *resolved_variables) && unresolved_error(e, *resolved_variables)
                    && object_unresolved(*object, *resolved_variables, err_var(e)),
            },
    {
        let mut out: Vec<ResolvedObjectElement> = Vec::new();
        let mut i: usize = 0;
        while i < object.elements.len()
            invariant
                i <= object.elements@.len(),
                resolved_variables.wf(),
                out@.len() == i,
                forall|k: int| 0 <= k < i ==> element_resolves(#[trigger] object.elements@[k], *resolved_variables),
                forall|k: int| 0 <= k < i ==> resolved_element(object.elements@[k], *resolved_variables, #[trigger] out@[k]),
            decreases object.elements@.len() - i,
        {
            let r = match &object.elements[i] {
                ObjectElement::Field { name, value } => {
                    let what = concat3("object field '", name.as_str(), "'");
                    let v = match resolve(&self.field_resolver, value, what.as_str(), resolved_variables) {
                        Ok(v) => v,
                        Err(e) => {
                            proof {
                                assert(element_unresolved(object.elements@[i as int], *resolved_variables, err_var(e)));
                            }
                            return Err(e);
                        },
                    };
                    ResolvedObjectElement::Field { name: name.clone(), value: v }
                },
                ObjectElement::SetRef { set_id } => ResolvedObjectElement::SetRef { set_id: set_id.clone() },
                ObjectElement::Filter(f) => ResolvedObjectElement::Filter(
                    ResolvedFilterSpec::new(f.action, clone_strings(&f.state_refs)),
                ),
                ObjectElement::Module { field, value } => ResolvedObjectElement::Module { field: *field, value: value.clone() },
                ObjectElement::Parameter { data_type, fields } => ResolvedObjectElement::Parameter {
                    data_type: *data_type,
                    data: RecordData::from_field_pairs(fields),
                },
                ObjectElement::Select { data_type, fields } => ResolvedObjectElement::Select {
                    data_type: *data_type,
                    data: RecordData::from_field_pairs(fields),
                },
                ObjectElement::Behavior { values } => ResolvedObjectElement::Behavior { values: clone_strings(values) },
            };
            out.push(r);
            i = i + 1;
        }
        Ok(ResolvedObject { identifier: object.identifier.clone(), resolved_elements: out, is_global: object.is_global })
    }
}

// ---------------------------------------------------------------------------
// Resolving the global symbols
// ---------------------------------------------------------------------------

/// The first variable declared under `n`.
pub open spec fn find_variable(s: Seq<VariableDeclaration>, n: Seq<char>) -> Option<VariableDeclaration>
    decreases s.len(),
{
    if s.len() == 0 { None } else if s[0].name@ == n { Some(s[0]) } else { find_variable(s.drop_first(), n) }
}

/// The first RUN operation computing `n`.
pub open spec fn find_run(s: Seq<RuntimeOperation>, n: Seq<char>) -> Option<RuntimeOperation>
    decreases s.len(),
{
    if s.len() == 0 { None } else if s[0].target_variable@ == n { Some(s[0]) } else { find_run(s.drop_first(), n) }
}

/// The first global state named `n`.
pub open spec fn find_state(s: Seq<StateDeclaration>, n: Seq<char>) -> Option<StateDeclaration>
    decreases s.len(),
{
    if s.len() == 0 { None } else if s[0].identifier@ == n { Some(s[0]) } else { find_state(s.drop_first(), n) }
}

/// The first global object named `n`.
pub open spec fn find_object(s: Seq<ObjectDeclaration>, n: Seq<char>) -> Option<ObjectDeclaration>
    decreases s.len(),
{
    if s.len() == 0 { None } else if s[0].identifier@ == n { Some(s[0]) } else { find_object(s.drop_first(), n) }
}

/// The first SET operation named `n`.
pub open spec fn find_set(s: Seq<SetOperation>, n: Seq<char>) -> Option<SetOperation>
    decreases s.len(),
{
    if s.len() == 0 { None } else if s[0].set_id@ == n { Some(s[0]) } else { find_set(s.drop_first(), n) }
}

/// `new` is `old` with `v` stored under `k`.
pub open spec fn map_inserted<V>(old: StringMap<V>, new: StringMap<V>, k: Seq<char>, v: V) -> bool {
    &&& new.wf()
    &&& forall|x: Seq<char>| new.has(x) <==> (old.has(x) || x == k)
    &&& new.at(k) == v
    &&& forall|x: Seq<char>| old.has(x) && x != k ==> new.at(x) == old.at(x)
}

/// `d` hands the RUN operation `op` computing `n` over to scan time: the
/// operation, its parameters, and the first object it reads, if any.
pub open spec fn deferred_for(d: DeferredOperation, n: Seq<char>, op: RuntimeOperation) -> bool {
    &&& d.target_variable@ == n
    &&& d.operation_type == op.operation_type
    &&& d.parameters@ == op.parameters@
    &&& (d.source_object_id is Some) == (params_object_refs(op.parameters@).len() > 0)
    &&& d.source_object_id matches Some(o) ==> o@ == params_object_refs(op.parameters@)[0]
}

/// The kind of the global symbol `id`: a variable (declared or computed),
/// else a SET, a state or an object.
pub open spec fn symbol_type_of(c: ResolutionContext, id: Seq<char>) -> Option<SymbolType> {
    if find_variable(c.variables@, id) is Some || find_run(c.runtime_operations@, id) is Some {
        Some(SymbolType::Variable)
    } else if find_set(c.set_operations@, id) is Some {
        Some(SymbolType::SetOperation)
    } else if find_state(c.global_states@, id) is Some {
        Some(SymbolType::GlobalState)
    } else if find_object(c.global_objects@, id) is Some {
        Some(SymbolType::GlobalObject)
    } else {
        None
    }
}

/// The position of the first variable declared under `n`.
fn position_of_variable(s: &Vec<VariableDeclaration>, n: &str) -> (res: Option<usize>)
    ensures
        match res {
            Some(i) => i < s@.len() && find_variable(s@, n@) == Some(s@[i as int]),
            None => find_variable(s@, n@) is None,
        },
{
    let mut i: usize = 0;
    assert(s@.subrange(0, s@.len() as int) =~= s@);
    while i < s.len()
        invariant
            i <= s@.len(),
            find_variable(s@, n@) == find_variable(s@.subrange(i as int, s@.len() as int), n@),
        decreases s@.len() - i,
    {
        proof {
            assert(s@.subrange(i as int, s@.len() as int).drop_first() =~= s@.subrange(i + 1, s@.len() as int));
        }
        if crate::strings::str_eq(s[i].name.as_str(), n) {
            return Some(i);
        }
        i = i + 1;
    }
    None
}

/// The position of the first RUN operation computing `n`.
fn position_of_run(s: &Vec<RuntimeOperation>, n: &str) -> (res: Option<usize>)
    ensures
        match res {
            Some(i) => i < s@.len() && find_run(s@, n@) == Some(s@[i as int]),
            None => find_run(s@, n@) is None,
        },
{
    let mut i: usize = 0;
    assert(s@.subrange(0, s@.len() as int) =~= s@);
    while i < s.len()
        invariant
            i <= s@.len(),
            find_run(s@, n@) == find_run(s@.subrange(i as int, s@.len() as int), n@),
        decreases s@.len() - i,
    {
        proof {
            assert(s@.subrange(i as int, s@.len() as int).drop_first() =~= s@.subrange(i + 1, s@.len() as int));
        }
        if crate::strings::str_eq(s[i].target_variable.as_str(), n) {
            return Some(i);
        }
        i = i + 1;
    }
    None
}

/// The position of the first global state named `n`.
fn position_of_state(s: &Vec<StateDeclaration>, n: &str) -> (res: Option<usize>)
    ensures
        match res {
            Some(i) => i < s@.len() && find_state(s@, n@) == Some(s@[i as int]),
            None => find_state(s@, n@) is None,
        },
{
    let mut i: usize = 0;
    assert(s@.subrange(0, s@.len() as int) =~= s@);
    while i < s.len()
        invariant
            i <= s@.len(),
            find_state(s@, n@) == find_state(s@.subrange(i as int, s@.len() as int), n@),
        decreases s@.len() - i,
    {
        proof {
            assert(s@.subrange(i as int, s@.len() as int).drop_first() =~= s@.subrange(i + 1, s@.len() as int));
        }
        if crate::strings::str_eq(s[i].identifier.as_str(), n) {
            return Some(i);
        }
        i = i + 1;
    }
    None
}

/// The position of the first global object named `n`.
fn position_of_object(s: &Vec<ObjectDeclaration>, n: &str) -> (res: Option<usize>)
    ensures
        match res {
            Some(i) => i < s@.len() && find_object(s@, n@) == Some(s@[i as int]),
            None => find_object(s@, n@) is None,
        },
{
    let mut i: usize = 0;
    assert(s@.subrange(0, s@.len() as int) =~= s@);
    while i < s.len()
        invariant
            i <= s@.len(),
            find_object(s@, n@) == find_object(s@.subrange(i as int, s@.len() as int), n@),
        decreases s@.len() - i,
    {
        proof {
            assert(s@.subrange(i as int, s@.len() as int).drop_first() =~= s@.subrange(i + 1, s@.len() as int));
        }
        if crate::strings::str_eq(s[i].identifier.as_str(), n) {
            return Some(i);
        }
        i = i + 1;
    }
    None
}

/// The position of the first SET operation named `n`.
fn position_of_set(s: &Vec<SetOperation>, n: &str) -> (res: Option<usize>)
    ensures
        match res {
            Some(i) => i < s@.len() && find_set(s@, n@) == Some(s@[i as int]) && s@[i as int].set_id@ == n@,
            None => find_set(s@, n@) is None,
        },
{
    let mut i: usize = 0;
    assert(s@.subrange(0, s@.len() as int) =~= s@);
    while i < s.len()
        invariant
            i <= s@.len(),
            find_set(s@, n@) == find_set(s@.subrange(i as int, s@.len() as int), n@),
        decreases s@.len() - i,
    {
        proof {
            assert(s@.subrange(i as int, s@.len() as int).drop_first() =~= s@.subrange(i + 1, s@.len() as int));
        }
        if crate::strings::str_eq(s[i].set_id.as_str(), n) {
            return Some(i);
        }
        i = i + 1;
    }
    None
}

/// A copy of a RUN parameter.
fn copy_run_parameter(p: &RunParameter) -> (res: RunParameter)
    ensures
        res == *p,
{
    match p {
        RunParameter::Variable(v) => RunParameter::Variable(v.clone()),
        RunParameter::Literal(v) => RunParameter::Literal(v.clone()),
        RunParameter::Pattern(v) => RunParameter::Pattern(v.clone()),
        RunParameter::Delimiter(v) => RunParameter::Delimiter(v.clone()),
        RunParameter::Character(v) => RunParameter::Character(v.clone()),
        RunParameter::StartPosition(n) => RunParameter::StartPosition(*n),
        RunParameter::Length(n) => RunParameter::Length(*n),
        RunParameter::ObjectExtraction { object_id, field } => RunParameter::ObjectExtraction {
            object_id: object_id.clone(),
            field: field.clone(),
        },
        RunParameter::ArithmeticOp { operator, operand } => RunParameter::ArithmeticOp {
            operator: *operator,
            operand: operand.clone(),
        },
    }
}

/// A copy of a list of RUN parameters.
fn copy_run_parameters(ps: &Vec<RunParameter>) -> (res: Vec<RunParameter>)
    ensures
        res@ == ps@,
{
    let mut out: Vec<RunParameter> = Vec::new();
    let mut i: usize = 0;
    while i < ps.len()
        invariant
            i <= ps@.len(),
            out@ == ps@.subrange(0, i as int),
        decreases ps@.len() - i,
    {
        out.push(copy_run_parameter(&ps[i]));
        proof {
            assert(out@ =~= ps@.subrange(0, i + 1));
        }
        i = i + 1;
    }
    proof {
        assert(ps@.subrange(0, ps@.len() as int) =~= ps@);
    }
    out
}

impl RuntimeOperation {
    /// The first object the operation reads a field of, if any.
    pub fn extract_object_id(&self) -> (res: Option<String>)
        ensures
            (res is Some) == (params_object_refs(self.parameters@).len() > 0),
            res matches Some(o) ==> o@ == params_object_refs(self.parameters@)[0],
    {
        let deps = self.get_object_dependencies();
        proof {
            assert(deps@.map_values(|r: String| r@).len() == deps@.len());
        }
        if deps.len() > 0 {
            Some(deps[0].clone())
        } else {
            None
        }
    }
}

/// Hand the RUN operation computing `n` over to scan time.
fn defer_operation(op: &RuntimeOperation, n: &str) -> (res: DeferredOperation)
    ensures
        deferred_for(res, n@, *op),
{
    DeferredOperation {
        target_variable: String::from_str(n),
        operation_type: op.operation_type,
        parameters: copy_run_parameters(&op.parameters),
        source_object_id: op.extract_object_id(),
    }
}

impl ResolutionEngine {
    /// The kind of the global symbol `symbol_id`.
    fn determine_symbol_type(&self, symbol_id: &str, context: &ResolutionContext) -> (res: Option<SymbolType>)
        ensures
            res == symbol_type_of(*context, symbol_id@),
    {
        if position_of_variable(&context.variables, symbol_id).is_some() {
            return Some(SymbolType::Variable);
        }
        if position_of_run(&context.runtime_operations, symbol_id).is_some() {
            return Some(SymbolType::Variable);
        }
        if position_of_set(&context.set_operations, symbol_id).is_some() {
            return Some(SymbolType::SetOperation);
        }
        if position_of_state(&context.global_states, symbol_id).is_some() {
            return Some(SymbolType::GlobalState);
        }
        if position_of_object(&context.global_objects, symbol_id).is_some() {
            return Some(SymbolType::GlobalObject);
        }
        None
    }

    /// The number of global symbols declared.
    fn count_symbols(&self, context: &ResolutionContext) -> (res: usize)
        requires
            engine_symbols(*context).len() <= usize::MAX,
        ensures
            res == engine_symbols(*context).len(),
    {
        context.variables.len() + context.runtime_operations.len() + context.set_operations.len()
            + context.global_states.len() + context.global_objects.len()
    }

    /// The resolved value of a declared variable's initial value.
    fn resolve_variable_with_initial_value(&self, variable: &VariableDeclaration, context: &ResolutionContext)
        -> (res: Result<ResolvedVariable, ResolutionError>)
        requires
            context.resolved_variables.wf(),
        ensures
            match variable.initial_value {
                None => res matches Err(ResolutionError::UndefinedVariable { name, context: c })
                    && name@ == variable.name@ && c@ == "Variable missing initial value"@,
                Some(init) => match field_value(init, context.resolved_variables) {
                    Some(v) => res == Ok::<ResolvedVariable, ResolutionError>(ResolvedVariable {
                        identifier: variable.name,
                        data_type: variable.data_type,
                        value: v,
                    }),
                    None => res matches Err(e) && unresolved_error(e, context.resolved_variables)
                        && value_unresolved(init, context.resolved_variables, err_var(e)),
                },
            },
    {
        let initial_value = match &variable.initial_value {
            Some(v) => v,
            None => {
                return Err(ResolutionError::UndefinedVariable {
                    name: variable.name.clone(),
                    context: String::from_str("Variable missing initial value"),
                });
            },
        };
        let what = concat3("variable '", variable.name.as_str(), "'");
        let value = resolve(&self.field_resolver, initial_value, what.as_str(), &context.resolved_variables)?;
        Ok(ResolvedVariable { identifier: variable.name.clone(), data_type: variable.data_type, value })
    }

    /// Resolve a variable. A declared variable with an initial value takes
    /// its resolved value. A variable computed by a RUN operation (declared
    /// without initial value, or not declared) is handed over to scan time
    /// with that operation; without one it is an error.
    fn resolve_variable(&mut self, variable_name: &str, context: &mut ResolutionContext) -> (res: Result<(), ResolutionError>)
        requires
            context_wf(*old(context)),
        ensures
            context_wf(*final(context)),
            ({
                let c = *old(context);
                let fv = find_variable(c.variables@, variable_name@);
                if fv is Some && fv->Some_0.initial_value is Some {
                    let v = fv->Some_0;
                    match field_value(v.initial_value->Some_0, c.resolved_variables) {
                        Some(val) => res is Ok
                            && *final(context) == (ResolutionContext { resolved_variables: final(context).resolved_variables, ..c })
                            && map_inserted(c.resolved_variables, final(context).resolved_variables, variable_name@,
                                ResolvedVariable { identifier: v.name, data_type: v.data_type, value: val }),
                        None => res matches Err(e) && unresolved_error(e, c.resolved_variables)
                            && value_unresolved(v.initial_value->Some_0, c.resolved_variables, err_var(e)) && *final(context) == c,
                    }
                } else {
                    match find_run(c.runtime_operations@, variable_name@) {
                        Some(op) => res is Ok
                            && *final(context) == (ResolutionContext { scan_time_operations: final(context).scan_time_operations, ..c })
                            && final(context).scan_time_operations@.len() == c.scan_time_operations@.len() + 1
                            && final(context).scan_time_operations@.drop_last() == c.scan_time_operations@
                            && deferred_for(final(context).scan_time_operations@.last(), variable_name@, op),
                        None => res matches Err(ResolutionError::UndefinedVariable { name, context: m })
                            && name@ == variable_name@
                            && m@ == (if fv is Some { "Computed variable has no RUN operation"@ } else {
                                "Variable not declared and has no RUN operation"@ })
                            && *final(context) == c,
                    }
                }
            }),
    {
        let declared = position_of_variable(&context.variables, variable_name);
        if let Some(i) = declared {
            if context.variables[i].has_initial_value() {
                let resolved = self.resolve_variable_with_initial_value(&context.variables[i], context)?;
                context.resolved_variables.insert(String::from_str(variable_name), resolved);
                return Ok(());
            }
        }
        match position_of_run(&context.runtime_operations, variable_name) {
            Some(j) => {
                let deferred = defer_operation(&context.runtime_operations[j], variable_name);
                let ghost before = context.scan_time_operations@;
                context.scan_time_operations.push(deferred);
                proof {
                    assert(context.scan_time_operations@.drop_last() =~= before);
                }
                Ok(())
            },
            None => {
                let why = if declared.is_some() {
                    String::from_str("Computed variable has no RUN operation")
                } else {
                    String::from_str("Variable not declared and has no RUN operation")
                };
                Err(ResolutionError::UndefinedVariable { name: String::from_str(variable_name), context: why })
            },
        }
    }

    /// Resolve a global state and record it under its name.
    fn resolve_global_state(&mut self, state_id: &str, context: &mut ResolutionContext) -> (res: Result<(), ResolutionError>)
        requires
            context_wf(*old(context)),
        ensures
            context_wf(*final(context)),
            match find_state(old(context).global_states@, state_id@) {
                None => res matches Err(ResolutionError::UndefinedGlobalState { name, context: m })
                    && name@ == state_id@ && m@ == "DAG resolution"@ && *final(context) == *old(context),
                Some(st) => if state_resolves(st, old(context).resolved_variables) {
                    &&& res is Ok
                    &&& *final(context) == (ResolutionContext {
                        resolved_global_states: final(context).resolved_global_states,
                        ..*old(context)
                    })
                    &&& map_inserted(old(context).resolved_global_states, final(context).resolved_global_states, state_id@,
                        final(context).resolved_global_states.at(state_id@))
                    &&& resolved_state(st, old(context).resolved_variables, final(context).resolved_global_states.at(state_id@))
                } else {
                    res matches Err(e) && unresolved_error(e, old(context).resolved_variables)
                        && state_unresolved(st, old(context).resolved_variables, err_var(e)) && *final(context) == *old(context)
                },
            },
    {
        let i = match position_of_state(&context.global_states, state_id) {
            Some(i) => i,
            None => {
                return Err(ResolutionError::UndefinedGlobalState {
                    name: String::from_str(state_id),
                    context: String::from_str("DAG resolution"),
                });
            },
        };
        let resolved = self.resolve_state_fields(&context.global_states[i], &context.resolved_variables)?;
        context.resolved_global_states.insert(String::from_str(state_id), resolved);
        Ok(())
    }

    /// Resolve a global object and record it under its name.
    fn resolve_global_object(&mut self, object_id: &str, context: &mut ResolutionContext) -> (res: Result<(), ResolutionError>)
        requires
            context_wf(*old(context)),
        ensures
            context_wf(*final(context)),
            match find_object(old(context).global_objects@, object_id@) {
                None => res matches Err(ResolutionError::UndefinedGlobalObject { name, context: m })
                    && name@ == object_id@ && m@ == "DAG resolution"@ && *final(context) == *old(context),
                Some(o) => if object_resolves(o, old(context).resolved_variables) {
                    &&& res is Ok
                    &&& *final(context) == (ResolutionContext {
                        resolved_global_objects: final(context).resolved_global_objects,
                        ..*old(context)
                    })
                    &&& map_inserted(old(context).resolved_global_objects, final(context).resolved_global_objects, object_id@,
                        final(context).resolved_global_objects.at(object_id@))
                    &&& resolved_object(o, old(context).resolved_variables, final(context).resolved_global_objects.at(object_id@))
                } else {
                    res matches Err(e) && unresolved_error(e, old(context).resolved_variables)
                        && object_unresolved(o, old(context).resolved_variables, err_var(e)) && *final(context) == *old(context)
                },
            },
    {
        let i = match position_of_object(&context.global_objects, object_id) {
            Some(i) => i,
            None => {
                return Err(ResolutionError::UndefinedGlobalObject {
                    name: String::from_str(object_id),
                    context: String::from_str("DAG resolution"),
                });
            },
        };
        let resolved = self.resolve_object_fields(&context.global_objects[i], &context.resolved_variables)?;
        context.resolved_global_objects.insert(String::from_str(object_id), resolved);
        Ok(())
    }

    /// Execute a SET operation and record its result under its name.
    fn resolve_set_operation(&mut self, set_id: &str, context: &mut ResolutionContext) -> (res: Result<(), ResolutionError>)
        requires
            context_wf(*old(context)),
        ensures
            context_wf(*final(context)),
            match find_set(old(context).set_operations@, set_id@) {
                None => res matches Err(ResolutionError::SetOperationFailed { set_id: s, reason }) && s@ == set_id@
                    && reason@ == "Set operation not found"@ && *final(context) == *old(context),
                Some(so) => if set_resolvable(so, *old(context), set_keys(old(context).resolved_sets)) {
                    &&& res is Ok
                    &&& *final(context) == (ResolutionContext { resolved_sets: final(context).resolved_sets, ..*old(context) })
                    &&& map_inserted(old(context).resolved_sets, final(context).resolved_sets, set_id@,
                        final(context).resolved_sets.at(set_id@))
                    &&& resolved_set_matches(final(context).resolved_sets.at(set_id@), so, old(context).resolved_variables)
                } else {
                    res matches Err(e) && set_error(e, so, *old(context), set_keys(old(context).resolved_sets))
                        && *final(context) == *old(context)
                },
            },
    {
        let i = match position_of_set(&context.set_operations, set_id) {
            Some(i) => i,
            None => {
                return Err(ResolutionError::SetOperationFailed {
                    set_id: String::from_str(set_id),
                    reason: String::from_str("Set operation not found"),
                });
            },
        };
        let ghost c0 = *context;
        let mut ops: Vec<SetOperation> = Vec::new();
        std::mem::swap(&mut ops, &mut context.set_operations);
        let ghost c1 = *context;
        let ghost so = ops@[i as int];
        let outcome = execute_set_operation(&ops[i], context);
        std::mem::swap(&mut ops, &mut context.set_operations);
        proof {
            lemma_set_frame(so, c1, c0, set_keys(c0.resolved_sets));
            assert(so.set_id@ == set_id@);
        }
        match outcome {
            Ok(_) => {
                proof {
                    assert(*context == (ResolutionContext { resolved_sets: context.resolved_sets, ..c0 }));
                }
                Ok(())
            },
            Err(e) => {
                proof {
                    assert(*context == c0);
                }
                Err(e)
            },
        }
    }
}

/// Every variable resolved in `a` is resolved in `b`, to the same value.
pub open spec fn vars_extend(a: StringMap<ResolvedVariable>, b: StringMap<ResolvedVariable>) -> bool {
    forall|k: Seq<char>| #[trigger] a.has(k) ==> b.has(k) && b.at(k) == a.at(k)
}

/// The variable `x` is resolved in `vars` as `o` declares it: to the value
/// of its initial value.
pub open spec fn variable_resolved_as(o: ResolutionContext, vars: StringMap<ResolvedVariable>, x: Seq<char>) -> bool {
    find_variable(o.variables@, x) matches Some(v) && v.initial_value matches Some(iv)
        && field_value(iv, vars) is Some
        && vars.at(x) == (ResolvedVariable { identifier: v.name, data_type: v.data_type, value: field_value(iv, vars)->Some_0 })
}

/// The SET `so` resolves to `r` against `vars`, its inline objects included.
pub open spec fn set_resolved_as(so: SetOperation, vars: StringMap<ResolvedVariable>, r: ResolvedSetOperation) -> bool {
    &&& forall|i: int| 0 <= i < so.operands@.len() ==> (#[trigger] so.operands@[i] matches SetOperand::InlineObject(d)
        ==> inline_resolvable(d.elements@, vars))
    &&& resolved_set_matches(r, so, vars)
}

/// The global symbols that `f` has resolved are resolved as `o` declares
/// them, against the variables that `f` has resolved.
pub open spec fn globals_correct(f: ResolutionContext, o: ResolutionContext) -> bool {
    &&& forall|x: Seq<char>| #[trigger] f.resolved_variables.has(x) ==> variable_resolved_as(o, f.resolved_variables, x)
    &&& forall|x: Seq<char>| #[trigger] f.resolved_global_states.has(x) ==> (find_state(o.global_states@, x) matches Some(st)
        && state_resolves(st, f.resolved_variables) && resolved_state(st, f.resolved_variables, f.resolved_global_states.at(x)))
    &&& forall|x: Seq<char>| #[trigger] f.resolved_global_objects.has(x) ==> (find_object(o.global_objects@, x) matches Some(ob)
        && object_resolves(ob, f.resolved_variables) && resolved_object(ob, f.resolved_variables, f.resolved_global_objects.at(x)))
    &&& forall|x: Seq<char>| #[trigger] f.resolved_sets.has(x) ==> (find_set(o.set_operations@, x) matches Some(so)
        && set_resolved_as(so, f.resolved_variables, f.resolved_sets.at(x)))
}

/// A value that resolves keeps its value when more variables are resolved.
proof fn lemma_value_stable(v: Value, a: StringMap<ResolvedVariable>, b: StringMap<ResolvedVariable>)
    requires
        vars_extend(a, b),
        field_value(v, a) is Some,
    ensures
        field_value(v, b) == field_value(v, a),
        resolved_field_value(v, b) == resolved_field_value(v, a),
{
    if let Value::Variable(n) = v {
        assert(a.has(n@));
    }
}

/// A state that resolves keeps its resolution when more variables are resolved.
proof fn lemma_state_stable(st: StateDeclaration, a: StringMap<ResolvedVariable>, b: StringMap<ResolvedVariable>, r: ResolvedState)
    requires
        vars_extend(a, b),
        state_resolves(st, a),
        resolved_state(st, a, r),
    ensures
        state_resolves(st, b),
        resolved_state(st, b, r),
{
    assert forall|i: int| 0 <= i < st.fields@.len() implies field_value(#[trigger] st.fields@[i].value, b) == field_value(
        st.fields@[i].value, a) by {
        lemma_value_stable(st.fields@[i].value, a, b);
    }
    assert forall|i: int| 0 <= i < st.record_checks@.len() implies record_check_resolves(#[trigger] st.record_checks@[i], b)
        && resolved_record_check(st.record_checks@[i], b, r.resolved_record_checks@[i]) by {
        let rc = st.record_checks@[i];
        assert(record_check_resolves(rc, a));
        assert(resolved_record_check(rc, a, r.resolved_record_checks@[i]));
        match rc.content {
            RecordContent::Direct { value, .. } => {
                lemma_value_stable(value, a, b);
            },
            RecordContent::Nested { fields } => {
                assert forall|j: int| 0 <= j < fields@.len() implies field_value(#[trigger] fields@[j].value, b)
                    == field_value(fields@[j].value, a) by {
                    lemma_value_stable(fields@[j].value, a, b);
                }
            },
        }
    }
}

/// An object that resolves keeps its resolution when more variables are resolved.
proof fn lemma_object_stable(o: ObjectDeclaration, a: StringMap<ResolvedVariable>, b: StringMap<ResolvedVariable>, r: ResolvedObject)
    requires
        vars_extend(a, b),
        object_resolves(o, a),
        resolved_object(o, a, r),
    ensures
        object_resolves(o, b),
        resolved_object(o, b, r),
{
    assert forall|i: int| 0 <= i < o.elements@.len() implies element_resolves(#[trigger] o.elements@[i], b)
        && resolved_element(o.elements@[i], b, r.resolved_elements@[i]) by {
        assert(element_resolves(o.elements@[i], a));
        assert(resolved_element(o.elements@[i], a, r.resolved_elements@[i]));
        if let ObjectElement::Field { value, .. } = o.elements@[i] {
            lemma_value_stable(value, a, b);
        }
    }
}

/// Inline elements that resolve keep their resolution when more variables are resolved.
proof fn lemma_inline_stable(elems: Seq<ObjectElement>, a: StringMap<ResolvedVariable>, b: StringMap<ResolvedVariable>)
    requires
        vars_extend(a, b),
        inline_resolvable(elems, a),
    ensures
        inline_resolvable(elems, b),
        inline_elements(elems, b) == inline_elements(elems, a),
    decreases elems.len(),
{
    assert forall|i: int| 0 <= i < elems.len() implies !unresolved_field(#[trigger] elems[i], b) by {
        assert(!unresolved_field(elems[i], a));
        if let ObjectElement::Field { value, .. } = elems[i] {
            if let Value::Variable(n) = value {
                assert(a.has(n@));
            }
        }
    }
    if elems.len() > 0 {
        let t = elems.drop_last();
        assert forall|i: int| 0 <= i < t.len() implies !unresolved_field(#[trigger] t[i], a) by {
            assert(t[i] == elems[i]);
        }
        lemma_inline_stable(t, a, b);
        assert(!unresolved_field(elems[elems.len() - 1], a));
        if let ObjectElement::Field { value, .. } = elems.last() {
            if let Value::Variable(n) = value {
                assert(a.has(n@));
            }
        }
    }
}

/// A SET that resolves keeps its resolution when more variables are resolved.
proof fn lemma_set_stable(so: SetOperation, a: StringMap<ResolvedVariable>, b: StringMap<ResolvedVariable>, r: ResolvedSetOperation)
    requires
        vars_extend(a, b),
        set_resolved_as(so, a, r),
    ensures
        set_resolved_as(so, b, r),
{
    assert forall|i: int| 0 <= i < so.operands@.len() implies (#[trigger] so.operands@[i] matches SetOperand::InlineObject(d)
        ==> inline_resolvable(d.elements@, b)) && resolved_operand_matches(r.resolved_operands@[i], so.operands@[i], b) by {
        assert(resolved_operand_matches(r.resolved_operands@[i], so.operands@[i], a));
        if let SetOperand::InlineObject(d) = so.operands@[i] {
            lemma_inline_stable(d.elements@, a, b);
        }
    }
}

/// A resolution step from `c0` to `c1` keeps every resolved global symbol
/// resolved as `o` declares it: the variables resolved before keep their
/// values, and each entry that is new or changed is resolved as declared.
proof fn lemma_step_correct(o: ResolutionContext, c0: ResolutionContext, c1: ResolutionContext)
    requires
        globals_correct(c0, o),
        vars_extend(c0.resolved_variables, c1.resolved_variables),
        forall|k: Seq<char>| #[trigger] c1.resolved_variables.has(k) && !c0.resolved_variables.has(k)
            ==> variable_resolved_as(o, c1.resolved_variables, k),
        forall|k: Seq<char>| #[trigger] c1.resolved_global_states.has(k) ==>
            (c0.resolved_global_states.has(k) && c1.resolved_global_states.at(k) == c0.resolved_global_states.at(k))
            || (find_state(o.global_states@, k) matches Some(st) && state_resolves(st, c1.resolved_variables)
                && resolved_state(st, c1.resolved_variables, c1.resolved_global_states.at(k))),
        forall|k: Seq<char>| #[trigger] c1.resolved_global_objects.has(k) ==>
            (c0.resolved_global_objects.has(k) && c1.resolved_global_objects.at(k) == c0.resolved_global_objects.at(k))
            || (find_object(o.global_objects@, k) matches Some(ob) && object_resolves(ob, c1.resolved_variables)
                && resolved_object(ob, c1.resolved_variables, c1.resolved_global_objects.at(k))),
        forall|k: Seq<char>| #[trigger] c1.resolved_sets.has(k) ==>
            (c0.resolved_sets.has(k) && c1.resolved_sets.at(k) == c0.resolved_sets.at(k))
            || (find_set(o.set_operations@, k) matches Some(so)
                && set_resolved_as(so, c1.resolved_variables, c1.resolved_sets.at(k))),
    ensures
        globals_correct(c1, o),
{
    let a = c0.resolved_variables;
    let b = c1.resolved_variables;
    assert forall|x: Seq<char>| #[trigger] b.has(x) implies variable_resolved_as(o, b, x) by {
        if a.has(x) {
            assert(variable_resolved_as(o, a, x));
            let iv = find_variable(o.variables@, x)->Some_0.initial_value->Some_0;
            lemma_value_stable(iv, a, b);
        }
    }
    assert forall|x: Seq<char>| #[trigger] c1.resolved_global_states.has(x) implies (find_state(o.global_states@, x) matches Some(st)
        && state_resolves(st, b) && resolved_state(st, b, c1.resolved_global_states.at(x))) by {
        if c0.resolved_global_states.has(x) && c1.resolved_global_states.at(x) == c0.resolved_global_states.at(x) {
            let st = find_state(o.global_states@, x)->Some_0;
            lemma_state_stable(st, a, b, c0.resolved_global_states.at(x));
        }
    }
    assert forall|x: Seq<char>| #[trigger] c1.resolved_global_objects.has(x) implies (find_object(o.global_objects@, x) matches Some(ob)
        && object_resolves(ob, b) && resolved_object(ob, b, c1.resolved_global_objects.at(x))) by {
        if c0.resolved_global_objects.has(x) && c1.resolved_global_objects.at(x) == c0.resolved_global_objects.at(x) {
            let ob = find_object(o.global_objects@, x)->Some_0;
            lemma_object_stable(ob, a, b, c0.resolved_global_objects.at(x));
        }
    }
    assert forall|x: Seq<char>| #[trigger] c1.resolved_sets.has(x) implies (find_set(o.set_operations@, x) matches Some(so)
        && set_resolved_as(so, b, c1.resolved_sets.at(x))) by {
        if c0.resolved_sets.has(x) && c1.resolved_sets.at(x) == c0.resolved_sets.at(x) {
            let so = find_set(o.set_operations@, x)->Some_0;
            lemma_set_stable(so, a, b, c0.resolved_sets.at(x));
        }
    }
}

/// Some RUN operation was handed over to scan time for `x`.
pub open spec fn deferred_target(s: Seq<DeferredOperation>, x: Seq<char>) -> bool {
    exists|j: int| 0 <= j < s.len() && (#[trigger] s[j]).target_variable@ == x
}

/// `d` hands over to scan time a variable of `c` that has no initial value
/// and that a RUN operation computes.
pub open spec fn deferral_of(c: ResolutionContext, d: DeferredOperation) -> bool {
    let x = d.target_variable@;
    let fv = find_variable(c.variables@, x);
    &&& !(fv is Some && fv->Some_0.initial_value is Some)
    &&& find_run(c.runtime_operations@, x) matches Some(op) && deferred_for(d, x, op)
}

/// The operations that `f` hands over to scan time are those of `c`, then
/// only variables of `c` that RUN operations compute.
pub open spec fn deferrals_from(c: ResolutionContext, f: ResolutionContext) -> bool {
    &&& f.scan_time_operations@.len() >= c.scan_time_operations@.len()
    &&& f.scan_time_operations@.subrange(0, c.scan_time_operations@.len() as int) == c.scan_time_operations@
    &&& forall|j: int| c.scan_time_operations@.len() <= j < f.scan_time_operations@.len()
        ==> deferral_of(c, #[trigger] f.scan_time_operations@[j])
}

/// The global symbol `x`, of the kind `o` declares it, is resolved in `f`: a
/// variable has a value or was handed over to scan time; a state, object or
/// SET has its resolution.
pub open spec fn symbol_resolved(f: ResolutionContext, o: ResolutionContext, x: Seq<char>) -> bool {
    match symbol_type_of(o, x) {
        Some(SymbolType::Variable) => f.resolved_variables.has(x) || deferred_target(f.scan_time_operations@, x),
        Some(SymbolType::GlobalState) => f.resolved_global_states.has(x),
        Some(SymbolType::GlobalObject) => f.resolved_global_objects.has(x),
        Some(SymbolType::SetOperation) => f.resolved_sets.has(x),
        _ => true,
    }
}

/// The local objects and states of `o` are resolved in `f` against the
/// resolved variables of `f`.
pub open spec fn locals_resolved(f: ResolutionContext, o: ResolutionContext) -> bool {
    &&& forall|k: usize| #[trigger] o.ctn_local_objects.has(k) ==> f.resolved_local_objects.has(k)
        && resolved_object(o.ctn_local_objects.at(k), f.resolved_variables, f.resolved_local_objects.at(k))
    &&& forall|k: usize| #[trigger] o.ctn_local_states.has(k) ==> f.resolved_local_states.has(k)
        && f.resolved_local_states.at(k)@.len() == o.ctn_local_states.at(k)@.len()
        && forall|j: int| 0 <= j < o.ctn_local_states.at(k)@.len()
            ==> resolved_state(o.ctn_local_states.at(k)@[j], f.resolved_variables, #[trigger] f.resolved_local_states.at(k)@[j])
}

/// A local object or local state of `c` reads the variable `n`, which is
/// not resolved in `vars`.
pub open spec fn local_unresolved(c: ResolutionContext, vars: StringMap<ResolvedVariable>, n: Seq<char>) -> bool {
    ||| exists|k: usize| #[trigger] c.ctn_local_objects.has(k) && object_unresolved(c.ctn_local_objects.at(k), vars, n)
    ||| exists|k: usize, j: int| #![trigger c.ctn_local_states.at(k)@[j]]
        c.ctn_local_states.has(k) && 0 <= j < c.ctn_local_states.at(k)@.len()
        && state_unresolved(c.ctn_local_states.at(k)@[j], vars, n)
}

/// Resolving a symbol keeps what earlier symbols resolved.
proof fn lemma_resolved_kept(a: ResolutionContext, b: ResolutionContext, o: ResolutionContext, x: Seq<char>)
    requires
        symbol_resolved(a, o, x),
        forall|k: Seq<char>| a.resolved_variables.has(k) ==> b.resolved_variables.has(k),
        forall|k: Seq<char>| a.resolved_global_states.has(k) ==> b.resolved_global_states.has(k),
        forall|k: Seq<char>| a.resolved_global_objects.has(k) ==> b.resolved_global_objects.has(k),
        forall|k: Seq<char>| a.resolved_sets.has(k) ==> b.resolved_sets.has(k),
        b.scan_time_operations@.len() >= a.scan_time_operations@.len(),
        b.scan_time_operations@.subrange(0, a.scan_time_operations@.len() as int) == a.scan_time_operations@,
    ensures
        symbol_resolved(b, o, x),
{
    if symbol_type_of(o, x) == Some(SymbolType::Variable) && !a.resolved_variables.has(x) {
        let j = choose|j: int| 0 <= j < a.scan_time_operations@.len()
            && (#[trigger] a.scan_time_operations@[j]).target_variable@ == x;
        assert(b.scan_time_operations@[j] == a.scan_time_operations@[j]);
    }
}

/// Resolving the global symbol `x` in the context `c`, as its kind asks,
/// fails with `e`: a variable whose initial value does not resolve, or with
/// neither an initial value nor a RUN operation; a state, object or SET
/// that is not found or does not resolve.
pub open spec fn resolution_step_error(c: ResolutionContext, x: Seq<char>, e: ResolutionError) -> bool {
    match symbol_type_of(c, x) {
        Some(SymbolType::Variable) => {
            let fv = find_variable(c.variables@, x);
            if fv is Some && fv->Some_0.initial_value is Some {
                field_value(fv->Some_0.initial_value->Some_0, c.resolved_variables) is None
                    && unresolved_error(e, c.resolved_variables)
                    && value_unresolved(fv->Some_0.initial_value->Some_0, c.resolved_variables, err_var(e))
            } else {
                &&& find_run(c.runtime_operations@, x) is None
                &&& e matches ResolutionError::UndefinedVariable { name, context: m }
                    && name@ == x
                    && m@ == (if fv is Some { "Computed variable has no RUN operation"@ } else {
                        "Variable not declared and has no RUN operation"@ })
            }
        },
        Some(SymbolType::GlobalState) => match find_state(c.global_states@, x) {
            None => e matches ResolutionError::UndefinedGlobalState { name, context: m }
                && name@ == x && m@ == "DAG resolution"@,
            Some(st) => !state_resolves(st, c.resolved_variables) && unresolved_error(e, c.resolved_variables)
                && state_unresolved(st, c.resolved_variables, err_var(e)),
        },
        Some(SymbolType::GlobalObject) => match find_object(c.global_objects@, x) {
            None => e matches ResolutionError::UndefinedGlobalObject { name, context: m }
                && name@ == x && m@ == "DAG resolution"@,
            Some(o) => !object_resolves(o, c.resolved_variables) && unresolved_error(e, c.resolved_variables)
                && object_unresolved(o, c.resolved_variables, err_var(e)),
        },
        Some(SymbolType::SetOperation) => match find_set(c.set_operations@, x) {
            None => e matches ResolutionError::SetOperationFailed { set_id: s, reason }
                && s@ == x && reason@ == "Set operation not found"@,
            Some(so) => !set_resolvable(so, c, set_keys(c.resolved_sets))
                && set_error(e, so, c, set_keys(c.resolved_sets)),
        },
        _ => false,
    }
}

impl ResolutionEngine {
    /// Resolve the global symbols in the given order, each as its kind asks.
    fn resolve_symbols_in_order(&mut self, resolution_order: &Vec<String>, context: &mut ResolutionContext)
        -> (res: Result<(), ResolutionError>)
        requires
            context_wf(*old(context)),
            nothing_resolved(*old(context)),
            views(resolution_order@).no_duplicates(),
        ensures
            context_wf(*final(context)),
            *final(context) == (ResolutionContext {
                resolved_variables: final(context).resolved_variables,
                resolved_global_states: final(context).resolved_global_states,
                resolved_global_objects: final(context).resolved_global_objects,
                resolved_sets: final(context).resolved_sets,
                scan_time_operations: final(context).scan_time_operations,
                ..*old(context)
            }),
            deferrals_from(*old(context), *final(context)),
            globals_correct(*final(context), *old(context)),
            res is Ok ==> forall|i: int| 0 <= i < resolution_order@.len()
                ==> symbol_resolved(*final(context), *old(context), #[trigger] resolution_order@[i]@),
            res matches Err(e) ==> exists|i: int| 0 <= i < resolution_order@.len()
                && #[trigger] resolution_step_error(*final(context), resolution_order@[i]@, e)
                && forall|j: int| 0 <= j < i ==> symbol_resolved(*final(context), *old(context), #[trigger] resolution_order@[j]@),
    {
        proof {
            assert(context.scan_time_operations@.subrange(0, context.scan_time_operations@.len() as int)
                =~= context.scan_time_operations@);
            assert(context.resolved_variables.spec_keys() =~= Seq::<Seq<char>>::empty());
            assert(context.resolved_global_states.spec_keys() =~= Seq::<Seq<char>>::empty());
            assert(context.resolved_global_objects.spec_keys() =~= Seq::<Seq<char>>::empty());
            assert(context.resolved_sets.spec_keys() =~= Seq::<Seq<char>>::empty());
        }
        let mut i: usize = 0;
        while i < resolution_order.len()
            invariant
                i <= resolution_order@.len(),
                context_wf(*context),
                *context == (ResolutionContext {
                    resolved_variables: context.resolved_variables,
                    resolved_global_states: context.resolved_global_states,
                    resolved_global_objects: context.resolved_global_objects,
                    resolved_sets: context.resolved_sets,
                    scan_time_operations: context.scan_time_operations,
                    ..*old(context)
                }),
                forall|j: int| 0 <= j < i ==> symbol_resolved(*context, *old(context), #[trigger] resolution_order@[j]@),
                deferrals_from(*old(context), *context),
                views(resolution_order@).no_duplicates(),
                globals_correct(*context, *old(context)),
                forall|k: Seq<char>| #[trigger] context.resolved_variables.has(k)
                    ==> exists|j: int| 0 <= j < i && resolution_order@[j]@ == k,
            decreases resolution_order@.len() - i,
        {
            let ghost c0 = *context;
            let id = resolution_order[i].as_str();
            let step = match self.determine_symbol_type(id, context) {
                Some(SymbolType::Variable) => self.resolve_variable(id, context),
                Some(SymbolType::GlobalState) => self.resolve_global_state(id, context),
                Some(SymbolType::GlobalObject) => self.resolve_global_object(id, context),
                Some(SymbolType::SetOperation) => self.resolve_set_operation(id, context),
                _ => Ok(()),
            };
            if let Err(e) = step {
                proof {
                    assert(*context == c0);
                    assert(symbol_type_of(c0, id@) == symbol_type_of(*old(context), id@));
                    assert(resolution_step_error(*context, resolution_order@[i as int]@, e));
                }
                return Err(e);
            }
            proof {
                lemma_step_correct(*old(context), c0, *context);
                assert forall|k: Seq<char>| #[trigger] context.resolved_variables.has(k)
                    implies exists|j: int| 0 <= j < i + 1 && resolution_order@[j]@ == k by {
                    if !c0.resolved_variables.has(k) {
                        assert(resolution_order@[i as int]@ == k);
                    }
                }
                assert(context.scan_time_operations@.len() >= c0.scan_time_operations@.len());
                assert(context.scan_time_operations@.subrange(0, c0.scan_time_operations@.len() as int)
                    =~= c0.scan_time_operations@);
                assert(deferrals_from(*old(context), *context)) by {
                    let n0 = old(context).scan_time_operations@.len();
                    assert(context.scan_time_operations@.subrange(0, n0 as int)
                        =~= c0.scan_time_operations@.subrange(0, n0 as int));
                    assert forall|j: int| n0 <= j < context.scan_time_operations@.len()
                        implies deferral_of(*old(context), #[trigger] context.scan_time_operations@[j]) by {
                        if j < c0.scan_time_operations@.len() {
                            assert(context.scan_time_operations@[j] == c0.scan_time_operations@[j]);
                        }
                    }
                }
                assert forall|j: int| 0 <= j < i + 1 implies symbol_resolved(*context, *old(context), #[trigger] resolution_order@[j]@) by {
                    if j < i {
                        lemma_resolved_kept(c0, *context, *old(context), resolution_order@[j]@);
                    } else {
                        if symbol_type_of(*old(context), id@) == Some(SymbolType::Variable)
                            && !context.resolved_variables.has(id@) {
                            let n = context.scan_time_operations@.len() - 1;
                            assert(context.scan_time_operations@[n].target_variable@ == id@);
                        }
                    }
                }
            }
            i = i + 1;
        }
        Ok(())
    }

    /// Resolve the local objects and states of each criterion.
    fn resolve_local_symbols(&mut self, context: &mut ResolutionContext) -> (res: Result<(), ResolutionError>)
        requires
            context_wf(*old(context)),
        ensures
            context_wf(*final(context)),
            *final(context) == (ResolutionContext {
                resolved_local_objects: final(context).resolved_local_objects,
                resolved_local_states: final(context).resolved_local_states,
                ..*old(context)
            }),
            res is Ok ==> locals_resolved(*final(context), *old(context)),
            res matches Err(e) ==> unresolved_error(e, old(context).resolved_variables)
                && local_unresolved(*old(context), old(context).resolved_variables, err_var(e)),
    {
        let ghost c0 = *context;
        let mut i: usize = 0;
        while i < context.ctn_local_objects.entries.len()
            invariant
                i <= c0.ctn_local_objects.entries@.len(),
                c0 == *old(context),
                context_wf(*context),
                *context == (ResolutionContext {
                    resolved_local_objects: context.resolved_local_objects,
                    ..c0
                }),
                forall|j: int| 0 <= j < i ==> #[trigger] context.resolved_local_objects.has(c0.ctn_local_objects.entries@[j].0)
                    && resolved_object(c0.ctn_local_objects.entries@[j].1, c0.resolved_variables,
                        context.resolved_local_objects.at(c0.ctn_local_objects.entries@[j].0)),
            decreases c0.ctn_local_objects.entries@.len() - i,
        {
            let ghost before = context.resolved_local_objects;
            let key = context.ctn_local_objects.entries[i].0;
            let r = match self.resolve_object_fields(&context.ctn_local_objects.entries[i].1, &context.resolved_variables) {
                Ok(r) => r,
                Err(e) => {
                    proof {
                        c0.ctn_local_objects.lemma_ctn_key_at(i as int);
                        assert(c0.ctn_local_objects.has(key));
                        assert(object_unresolved(c0.ctn_local_objects.at(key), c0.resolved_variables, err_var(e)));
                    }
                    return Err(e);
                },
            };
            context.resolved_local_objects.insert(key, r);
            proof {
                assert forall|j: int| 0 <= j < i + 1 implies #[trigger] context.resolved_local_objects.has(c0.ctn_local_objects.entries@[j].0)
                    && resolved_object(c0.ctn_local_objects.entries@[j].1, c0.resolved_variables,
                        context.resolved_local_objects.at(c0.ctn_local_objects.entries@[j].0)) by {
                    if j < i {
                        c0.ctn_local_objects.lemma_ctn_key_at(j);
                        c0.ctn_local_objects.lemma_ctn_key_at(i as int);
                        assert(c0.ctn_local_objects.entries@[j].0 != key);
                    }
                }
            }
            i = i + 1;
        }
        let ghost c1 = *context;
        let mut i: usize = 0;
        while i < context.ctn_local_states.entries.len()
            invariant
                i <= c0.ctn_local_states.entries@.len(),
                c0 == *old(context),
                c1 == (ResolutionContext { resolved_local_objects: c1.resolved_local_objects, ..c0 }),
                context_wf(*context),
                *context == (ResolutionContext {
                    resolved_local_states: context.resolved_local_states,
                    ..c1
                }),
                c1.ctn_local_states == c0.ctn_local_states,
                c1.resolved_variables == c0.resolved_variables,
                forall|j: int| 0 <= j < i ==> #[trigger] context.resolved_local_states.has(c0.ctn_local_states.entries@[j].0)
                    && context.resolved_local_states.at(c0.ctn_local_states.entries@[j].0)@.len()
                        == c0.ctn_local_states.entries@[j].1@.len()
                    && forall|m: int| 0 <= m < c0.ctn_local_states.entries@[j].1@.len() ==> resolved_state(
                        c0.ctn_local_states.entries@[j].1@[m], c0.resolved_variables,
                        #[trigger] context.resolved_local_states.at(c0.ctn_local_states.entries@[j].0)@[m]),
            decreases c0.ctn_local_states.entries@.len() - i,
        {
            let key = context.ctn_local_states.entries[i].0;
            let mut resolved: Vec<ResolvedState> = Vec::new();
            let mut m: usize = 0;
            while m < context.ctn_local_states.entries[i].1.len()
                invariant
                    i < c0.ctn_local_states.entries@.len(),
                    m <= c0.ctn_local_states.entries@[i as int].1@.len(),
                    context_wf(*context),
                    c0 == *old(context),
                    c1 == (ResolutionContext { resolved_local_objects: c1.resolved_local_objects, ..c0 }),
                    *context == (ResolutionContext { resolved_local_states: context.resolved_local_states, ..c1 }),
                    context.ctn_local_states == c0.ctn_local_states,
                    context.resolved_variables == c0.resolved_variables,
                    key == c0.ctn_local_states.entries@[i as int].0,
                    resolved@.len() == m,
                    forall|q: int| 0 <= q < m ==> resolved_state(c0.ctn_local_states.entries@[i as int].1@[q],
                        c0.resolved_variables, #[trigger] resolved@[q]),
                decreases c0.ctn_local_states.entries@[i as int].1@.len() - m,
            {
                let r = match self.resolve_state_fields(&context.ctn_local_states.entries[i].1[m], &context.resolved_variables) {
                    Ok(r) => r,
                    Err(e) => {
                        proof {
                            c0.ctn_local_states.lemma_ctn_key_at(i as int);
                            assert(c0.ctn_local_states.has(key));
                            assert(state_unresolved(c0.ctn_local_states.at(key)@[m as int], c0.resolved_variables, err_var(e)));
                        }
                        return Err(e);
                    },
                };
                resolved.push(r);
                m = m + 1;
            }
            context.resolved_local_states.insert(key, resolved);
            proof {
                assert forall|j: int| 0 <= j < i + 1 implies #[trigger] context.resolved_local_states.has(c0.ctn_local_states.entries@[j].0)
                    && context.resolved_local_states.at(c0.ctn_local_states.entries@[j].0)@.len()
                        == c0.ctn_local_states.entries@[j].1@.len()
                    && forall|q: int| 0 <= q < c0.ctn_local_states.entries@[j].1@.len() ==> resolved_state(
                        c0.ctn_local_states.entries@[j].1@[q], c0.resolved_variables,
                        #[trigger] context.resolved_local_states.at(c0.ctn_local_states.entries@[j].0)@[q]) by {
                    if j < i {
                        c0.ctn_local_states.lemma_ctn_key_at(j);
                        c0.ctn_local_states.lemma_ctn_key_at(i as int);
                        assert(c0.ctn_local_states.entries@[j].0 != key);
                    }
                }
            }
            i = i + 1;
        }
        proof {
            assert forall|k: usize| #[trigger] c0.ctn_local_objects.has(k) implies context.resolved_local_objects.has(k)
                && resolved_object(c0.ctn_local_objects.at(k), context.resolved_variables, context.resolved_local_objects.at(k)) by {
                let idx = c0.ctn_local_objects.index_of(k);
                c0.ctn_local_objects.lemma_ctn_key_at(idx);
            }
            assert forall|k: usize| #[trigger] c0.ctn_local_states.has(k) implies context.resolved_local_states.has(k)
                && context.resolved_local_states.at(k)@.len() == c0.ctn_local_states.at(k)@.len()
                && forall|j: int| 0 <= j < c0.ctn_local_states.at(k)@.len() ==> resolved_state(c0.ctn_local_states.at(k)@[j],
                    context.resolved_variables, #[trigger] context.resolved_local_states.at(k)@[j]) by {
                let idx = c0.ctn_local_states.index_of(k);
                c0.ctn_local_states.lemma_ctn_key_at(idx);
            }
        }
        Ok(())
    }
}

/// The relationship list of the symbol table cannot be read, with the
/// message `m`: it is missing, or it is not a list.
pub open spec fn relationships_failure(symbols: JsonValue, m: Seq<char>) -> bool {
    match json_get(symbols, "relationships"@) {
        None => m == "Symbol table missing relationships array"@,
        Some(v) => !(v is Array) && m == "Relationships must be an array"@,
    }
}

/// The pipeline output cannot be read into a context, with the message `m`:
/// the AST is null, reading the AST fails, or the AST reads but the
/// relationship list of the symbol table does not.
pub open spec fn read_failure(output: PipelineOutput, m: Seq<char>) -> bool {
    ||| output.ast_tree is Null && m == "Pipeline output contains null AST"@
    ||| !(output.ast_tree is Null) && pipeline_failure(output.ast_tree, m)
    ||| !(output.ast_tree is Null) && relationships_failure(output.symbols, m)
        && exists|c: ResolutionContext| #[trigger] pipeline_read(output.ast_tree, c) && structure_problems(c).len() == 0
}

/// `c` is the context read from the pipeline output: the AST is not null,
/// reads into `c` and meets the structural rules, and `c` holds the
/// relationships of the symbol table that parse, in order.
pub open spec fn pipeline_context(output: PipelineOutput, c: ResolutionContext) -> bool {
    &&& !(output.ast_tree is Null)
    &&& pipeline_read(output.ast_tree, c)
    &&& structure_problems(c).len() == 0
    &&& json_get(output.symbols, "relationships"@) matches Some(JsonValue::Array(a)) && {
        let pos = parsed_positions(a@);
        &&& c.relationships@.len() == pos.len()
        &&& forall|k: int| 0 <= k < pos.len() ==> relationship_parsed(a@[pos[k]], #[trigger] c.relationships@[k])
    }
}

/// Every edge of `c` joins two of its global symbols.
pub open spec fn edges_ok(c: ResolutionContext) -> bool {
    forall|i: int| 0 <= i < engine_edges(c).len() ==> edge_ok(#[trigger] engine_edges(c)[i], engine_symbols(c))
}

/// The dependency relation of the global symbols of `c`: `a` is a symbol
/// with an edge to `b`.
pub open spec fn engine_relation(c: ResolutionContext) -> spec_fn(Seq<char>, Seq<char>) -> bool {
    |a: Seq<char>, b: Seq<char>| engine_symbols(c).contains(a) && targets_of(engine_edges(c), a).contains(b)
}

/// The global symbols of `c` depend on each other in a cycle.
pub open spec fn symbols_have_cycle(c: ResolutionContext) -> bool {
    relation_has_cycle(engine_relation(c))
}

/// `f` differs from `c` at most in what resolution fills in.
pub open spec fn same_declarations(c: ResolutionContext, f: ResolutionContext) -> bool {
    f == (ResolutionContext {
        resolved_variables: f.resolved_variables,
        resolved_global_states: f.resolved_global_states,
        resolved_global_objects: f.resolved_global_objects,
        resolved_sets: f.resolved_sets,
        resolved_local_objects: f.resolved_local_objects,
        resolved_local_states: f.resolved_local_states,
        scan_time_operations: f.scan_time_operations,
        ..c
    })
}

/// Resolving `c` succeeds with `f`: every edge joins two symbols, every
/// global symbol is resolved, to what its declaration gives, and so are the
/// local symbols of each criterion.
pub open spec fn dag_resolved(c: ResolutionContext, f: ResolutionContext) -> bool {
    &&& same_declarations(c, f)
    &&& edges_ok(c)
    &&& forall|x: Seq<char>| #[trigger] engine_symbols(c).contains(x) ==> symbol_resolved(f, c, x)
    &&& globals_correct(f, c)
    &&& locals_resolved(f, c)
}

/// Resolving `c` fails with `e`, leaving the context `f`: an edge has an end
/// that is not a symbol (the first such edge is reported); the symbols
/// depend on each other in a cycle; some global symbol does not resolve
/// although every symbol it depends on is resolved in `f` (the error names
/// what it reads and cannot resolve); or a local object or state reads a
/// variable that is not resolved once every global symbol has been. In the
/// last two, `f` hands over to scan time only variables that RUN operations
/// compute, and what it has resolved is resolved as declared.
pub open spec fn dag_failure(c: ResolutionContext, f: ResolutionContext, e: ResolutionError) -> bool {
    ||| f == c && exists|i: int| #![trigger engine_edges(c)[i]]
        0 <= i < engine_edges(c).len()
        && (forall|j: int| 0 <= j < i ==> edge_ok(#[trigger] engine_edges(c)[j], engine_symbols(c)))
        && !edge_ok(engine_edges(c)[i], engine_symbols(c))
        && e == (ResolutionError::DependencyGraphCorrupted { details: e->details })
        && e->details@ == missing_end_message(engine_edges(c)[i], engine_symbols(c))
    ||| f == c && edges_ok(c) && symbols_have_cycle(c)
        && e is CircularDependency
    ||| same_declarations(c, f) && edges_ok(c) && !symbols_have_cycle(c)
        && deferrals_from(c, f) && globals_correct(f, c)
        && exists|x: Seq<char>| engine_symbols(c).contains(x) && #[trigger] resolution_step_error(f, x, e)
            && forall|y: Seq<char>| #[trigger] (engine_relation(c))(x, y) ==> symbol_resolved(f, c, y)
    ||| same_declarations(c, f) && edges_ok(c) && !symbols_have_cycle(c)
        && deferrals_from(c, f) && globals_correct(f, c)
        && (forall|x: Seq<char>| #[trigger] engine_symbols(c).contains(x) ==> symbol_resolved(f, c, x))
        && unresolved_error(e, f.resolved_variables)
        && local_unresolved(c, f.resolved_variables, err_var(e))
}

/// Expanding the SET references of the resolved context `r` fails with `e`:
/// resolved SETs reference each other in a cycle, or a criterion reaches a
/// SET reference that does not expand.
pub open spec fn expansion_failure(r: ResolutionContext, e: ResolutionError) -> bool {
    ||| relation_has_cycle(set_graph(r.resolved_sets))
        && (e matches ResolutionError::CircularDependency { cycle } && is_set_lasso(r.resolved_sets, views(cycle@)))
    ||| !relation_has_cycle(set_graph(r.resolved_sets))
        && !all_expandable(forest_criteria(r.criteria_root.trees@), r.resolved_global_objects, r.resolved_sets)
        && criteria_error(e, forest_criteria(r.criteria_root.trees@), r.resolved_global_objects, r.resolved_sets)
}

impl ResolutionEngine {
    /// Resolve the context: build the dependency graph, order its symbols so
    /// that each comes after what it depends on, resolve them in that order,
    /// then resolve the local symbols of each criterion.
    fn resolve_dag(&mut self, context: &mut ResolutionContext) -> (res: Result<(), ResolutionError>)
        requires
            context_wf(*old(context)),
            nothing_resolved(*old(context)),
        ensures
            context_wf(*final(context)),
            *final(context) == (ResolutionContext {
                resolved_variables: final(context).resolved_variables,
                resolved_global_states: final(context).resolved_global_states,
                resolved_global_objects: final(context).resolved_global_objects,
                resolved_sets: final(context).resolved_sets,
                resolved_local_objects: final(context).resolved_local_objects,
                resolved_local_states: final(context).resolved_local_states,
                scan_time_operations: final(context).scan_time_operations,
                ..*old(context)
            }),
            res is Ok ==> dag_resolved(*old(context), *final(context)),
            res matches Err(e) ==> dag_failure(*old(context), *final(context), e),
            (exists|i: int| 0 <= i < engine_edges(*old(context)).len()
                && !edge_ok(#[trigger] engine_edges(*old(context))[i], engine_symbols(*old(context))))
                ==> res matches Err(ResolutionError::DependencyGraphCorrupted { .. }),
    {
        let ghost c0 = *context;
        let graph = match self.build_dependency_graph(context) {
            Ok(g) => g,
            Err(e) => {
                return Err(e);
            },
        };
        proof {
            assert forall|a: Seq<char>, b: Seq<char>| #[trigger] graph.deps(a).contains(b)
                == (engine_symbols(c0).contains(a) && targets_of(engine_edges(c0), a).contains(b)) by {
                if !graph.is_node(a) {
                    assert(!graph.edges.has(a));
                }
            }
            assert(graph.dep_relation() =~= engine_relation(c0));
            graph.lemma_relation_cycle();
            graph.lemma_cycle_of_relation();
        }
        let order = match graph.topological_sort() {
            Ok(o) => o,
            Err(e) => {
                return Err(e);
            },
        };
        match self.resolve_symbols_in_order(&order, context) {
            Ok(()) => {},
            Err(e) => {
                proof {
                    let i = choose|i: int| 0 <= i < order@.len()
                        && #[trigger] resolution_step_error(*context, order@[i]@, e)
                        && forall|j: int| 0 <= j < i ==> symbol_resolved(*context, c0, #[trigger] order@[j]@);
                    let x = order@[i]@;
                    assert(views(order@)[i] == x);
                    assert(graph.is_node(x));
                    assert(engine_symbols(c0).contains(x));
                    assert forall|y: Seq<char>| #[trigger] (engine_relation(c0))(x, y) implies symbol_resolved(*context, c0, y) by {
                        assert(targets_of(engine_edges(c0), x).contains(y));
                        assert(graph.deps(x).contains(y));
                        assert(graph.deps(views(order@)[i]).contains(y));
                        let j = choose|j: int| 0 <= j < i && views(order@)[j] == y;
                        assert(order@[j]@ == y);
                        assert(symbol_resolved(*context, c0, order@[j]@));
                    }
                }
                return Err(e);
            },
        }
        let ghost c1 = *context;
        proof {
            assert forall|x: Seq<char>| #[trigger] engine_symbols(c0).contains(x) implies symbol_resolved(c1, c0, x) by {
                assert(graph.is_node(x));
                assert(views(order@).contains(x));
                let i = choose|i: int| 0 <= i < views(order@).len() && views(order@)[i] == x;
                assert(order@[i]@ == x);
                assert(symbol_resolved(c1, c0, order@[i]@));
            }
        }
        match self.resolve_local_symbols(context) {
            Ok(()) => {},
            Err(e) => {
                proof {
                    assert forall|x: Seq<char>| #[trigger] engine_symbols(c0).contains(x) implies symbol_resolved(*context, c0, x) by {
                        assert(symbol_resolved(c1, c0, x));
                    }
                }
                return Err(e);
            },
        }
        proof {
            assert forall|x: Seq<char>| #[trigger] engine_symbols(c0).contains(x) implies symbol_resolved(*context, c0, x) by {
                assert(graph.is_node(x));
                assert(views(order@).contains(x));
                let i = choose|i: int| 0 <= i < views(order@).len() && views(order@)[i] == x;
                assert(order@[i]@ == x);
                assert(symbol_resolved(c1, c0, order@[i]@));
            }
        }
        Ok(())
    }

    /// Read the pipeline output: the AST into a context, then the
    /// relationships of the symbol table, which replace those read before.
    #[verifier::rlimit(40)]
    fn parse_pipeline_output(&self, output: &PipelineOutput) -> (res: Result<ResolutionContext, ResolutionError>)
        requires
            json_get(output.ast_tree, "definition"@) matches Some(d) ==> definition_criteria(d).len() <= usize::MAX,
            criteria_count(output.ast_tree) <= usize::MAX,
        ensures
            match res {
                Ok(c) => pipeline_context(*output, c),
                Err(e) => e matches ResolutionError::InvalidInput { message } && read_failure(*output, message@),
            },
    {
        if output.ast_tree.is_null() {
            return Err(ResolutionError::InvalidInput { message: String::from_str("Pipeline output contains null AST") });
        }
        let mut context = match ResolutionContext::from_pipeline_output(output) {
            Ok(c) => c,
            Err(message) => {
                return Err(ResolutionError::InvalidInput { message });
            },
        };
        let ghost c0 = context;
        let relationships = match parse_relationships_from_json(&output.symbols) {
            Ok(r) => r,
            Err(e) => {
                proof {
                    assert(pipeline_read(output.ast_tree, c0));
                }
                return Err(e);
            },
        };
        context.relationships = relationships;
        proof {
            assert(context == (ResolutionContext { relationships: context.relationships, ..c0 }));
            assert(structure_problems(context) == structure_problems(c0));
            assert(pipeline_read(output.ast_tree, context));
        }
        Ok(context)
    }

    /// Run the resolution of a pipeline output: read it, resolve its global
    /// and local symbols in dependency order, and expand the SET references
    /// of its criteria. The resolved context is returned.
    #[verifier::rlimit(40)]
    pub fn process_pipeline_output(&mut self, output: &PipelineOutput) -> (res: Result<ResolutionContext, ResolutionError>)
        requires
            json_get(output.ast_tree, "definition"@) matches Some(d) ==> definition_criteria(d).len() <= usize::MAX,
            criteria_count(output.ast_tree) <= usize::MAX,
        ensures
            res matches Ok(c) ==> json_get(output.ast_tree, "definition"@) matches Some(d) && {
                let ast = output.ast_tree;
                &&& metadata_ok(ast, c)
                &&& variables_ok(ast, c)
                &&& states_ok(d, c)
                &&& objects_ok(d, c)
                &&& runs_ok(ast, c)
                &&& sets_ok(ast, c)
                &&& forall|i: int| 0 <= i < engine_edges(c).len() ==> edge_ok(#[trigger] engine_edges(c)[i], engine_symbols(c))
                &&& forall|x: Seq<char>| #[trigger] engine_symbols(c).contains(x) ==> symbol_resolved(c, c, x)
                &&& globals_correct(c, c)
                &&& locals_resolved(c, c)
            },
            output.ast_tree is Null ==> (res matches Err(ResolutionError::InvalidInput { message })
                && message@ == "Pipeline output contains null AST"@),
            res matches Err(e) ==> {
                ||| e matches ResolutionError::InvalidInput { message } && read_failure(*output, message@)
                ||| exists|c: ResolutionContext, f: ResolutionContext|
                    pipeline_context(*output, c) && #[trigger] dag_failure(c, f, e)
                ||| exists|c: ResolutionContext, r: ResolutionContext|
                    pipeline_context(*output, c) && #[trigger] dag_resolved(c, r) && expansion_failure(r, e)
            },
    {
        let mut context = self.parse_pipeline_output(output)?;
        let ghost c0 = context;
        match self.resolve_dag(&mut context) {
            Ok(()) => {},
            Err(e) => {
                proof {
                    assert(dag_failure(c0, context, e));
                }
                return Err(e);
            },
        }
        let ghost c1 = context;
        proof {
            lemma_roots_numbering(definition_blocks(output.ast_tree), 0, context.criteria_root.trees@);
        }
        match expand_sets_in_resolution_context(&mut context) {
            Ok(()) => {},
            Err(e) => {
                proof {
                    assert(dag_resolved(c0, c1));
                    assert(expansion_failure(c1, e));
                }
                return Err(e);
            },
        }
        proof {
            let d = json_get(output.ast_tree, "definition"@)->Some_0;
            assert(engine_symbols(context) == engine_symbols(c0));
            assert(engine_edges(context) == engine_edges(c0));
            assert forall|x: Seq<char>| #[trigger] engine_symbols(context).contains(x) implies symbol_resolved(context, context, x) by {
                assert(symbol_resolved(c1, c0, x));
                assert(symbol_type_of(context, x) == symbol_type_of(c0, x));
            }
            assert(metadata_ok(output.ast_tree, c0));
            assert(variables_ok(output.ast_tree, c0));
            assert(states_ok(d, c0));
            assert(objects_ok(d, c0));
            assert(runs_ok(output.ast_tree, c0));
            assert(sets_ok(output.ast_tree, c0));
        }
        Ok(context)
    }
}

} // verus!
