//! Objects: the context collected while parsing them, and how the parsed
//! objects enter the resolution context.

use vstd::prelude::*;
use crate::string_map::CtnMap;
use crate::strings::{concat2, concat3, concat4, to_owned_string, usize_to_string, decimal};
use crate::json::{JsonValue, json_get, json_get_str, json_str};
use crate::types::common::{DataType, Value, data_type_name};
use crate::types::filter::{FilterAction, FilterSpec};
use crate::types::object::{ObjectDeclaration, ObjectElement, ModuleField, elements_var_refs, module_field_of};
use crate::types::resolution_context::{DeferredValidation, ResolutionContext, ValidationType, context_wf,
    deferrals, deferral};
use crate::resolution::dag::views;
use crate::resolution::error::{ResolutionError, invalid_input_debug, debug_invalid_input};
use crate::parser::variable::{parse_value_from_json, value_json_ok, value_from_json, is_data_type_name};

pub mod error;

verus! {

/// What object parsing collects besides the objects: non-fatal errors,
/// references to validate later, and the references seen.
#[derive(Debug)]
pub struct ObjectParsingContext {
    /// Parsing errors that are non-fatal.
    pub parsing_errors: Vec<String>,
    /// Validations to run once everything is parsed.
    pub deferred_validations: Vec<DeferredValidation>,
    /// Variable references found: (source, target, context).
    pub variable_references: Vec<(String, String, String)>,
    /// SET references found: (source, target, context).
    pub set_references: Vec<(String, String, String)>,
    /// Filter state references found: (source, target, context).
    pub filter_state_references: Vec<(String, String, String)>,
}

impl ObjectParsingContext {
    /// An empty parsing context.
    pub fn new() -> (res: ObjectParsingContext)
        ensures
            res.parsing_errors@.len() == 0,
            res.deferred_validations@.len() == 0,
            res.variable_references@.len() == 0,
            res.set_references@.len() == 0,
            res.filter_state_references@.len() == 0,
    {
        ObjectParsingContext {
            parsing_errors: Vec::new(),
            deferred_validations: Vec::new(),
            variable_references: Vec::new(),
            set_references: Vec::new(),
            filter_state_references: Vec::new(),
        }
    }

    /// Record a non-fatal parsing error.
    pub fn add_parsing_error(&mut self, error: String)
        ensures
            *final(self) == (ObjectParsingContext { parsing_errors: final(self).parsing_errors, ..*old(self) }),
            final(self).parsing_errors@ == old(self).parsing_errors@.push(error),
    {
        self.parsing_errors.push(error);
    }

    /// Record an object's reference to a variable, to validate later.
    pub fn defer_variable_reference(&mut self, source: String, target: String, context: String)
        ensures
            *final(self) == (ObjectParsingContext {
                variable_references: final(self).variable_references,
                deferred_validations: final(self).deferred_validations,
                ..*old(self)
            }),
            final(self).variable_references@ == old(self).variable_references@.push((source, target, context)),
            final(self).deferred_validations@ == old(self).deferred_validations@.push(DeferredValidation {
                validation_type: ValidationType::VariableReference,
                source_symbol: source,
                target_symbol: target,
                context,
            }),
    {
        self.variable_references.push((source.clone(), target.clone(), context.clone()));
        self.deferred_validations.push(DeferredValidation {
            validation_type: ValidationType::VariableReference,
            source_symbol: source,
            target_symbol: target,
            context,
        });
    }

    /// Record an object's reference to a SET, to validate later.
    pub fn defer_set_reference(&mut self, source: String, target: String, context: String)
        ensures
            *final(self) == (ObjectParsingContext {
                set_references: final(self).set_references,
                deferred_validations: final(self).deferred_validations,
                ..*old(self)
            }),
            final(self).set_references@ == old(self).set_references@.push((source, target, context)),
            final(self).deferred_validations@ == old(self).deferred_validations@.push(DeferredValidation {
                validation_type: ValidationType::SetReference,
                source_symbol: source,
                target_symbol: target,
                context,
            }),
    {
        self.set_references.push((source.clone(), target.clone(), context.clone()));
        self.deferred_validations.push(DeferredValidation {
            validation_type: ValidationType::SetReference,
            source_symbol: source,
            target_symbol: target,
            context,
        });
    }

    /// Record a filter's reference to a state, to validate later.
    pub fn defer_filter_state_reference(&mut self, source: String, target: String, context: String)
        ensures
            *final(self) == (ObjectParsingContext {
                filter_state_references: final(self).filter_state_references,
                deferred_validations: final(self).deferred_validations,
                ..*old(self)
            }),
            final(self).filter_state_references@ == old(self).filter_state_references@.push((source, target, context)),
            final(self).deferred_validations@ == old(self).deferred_validations@.push(DeferredValidation {
                validation_type: ValidationType::FilterStateReference,
                source_symbol: source,
                target_symbol: target,
                context,
            }),
    {
        self.filter_state_references.push((source.clone(), target.clone(), context.clone()));
        self.deferred_validations.push(DeferredValidation {
            validation_type: ValidationType::FilterStateReference,
            source_symbol: source,
            target_symbol: target,
            context,
        });
    }

    /// Hand the errors and deferred validations over to the resolution context.
    pub fn apply_to_resolution_context(self, resolution_context: &mut ResolutionContext)
        ensures
            final(resolution_context).parsing_errors@ == old(resolution_context).parsing_errors@ + self.parsing_errors@,
            final(resolution_context).deferred_validations@
                == old(resolution_context).deferred_validations@ + self.deferred_validations@,
            *final(resolution_context) == (ResolutionContext {
                parsing_errors: final(resolution_context).parsing_errors,
                deferred_validations: final(resolution_context).deferred_validations,
                ..*old(resolution_context)
            }),
    {
        let mut errors = self.parsing_errors;
        let mut validations = self.deferred_validations;
        resolution_context.parsing_errors.append(&mut errors);
        resolution_context.deferred_validations.append(&mut validations);
    }
}

/// Whether some field of the object refers to a variable.
pub fn has_variable_references_in_object(object: &ObjectDeclaration) -> (res: bool)
    ensures
        res == (elements_var_refs(object.elements@).len() > 0),
{
    object.has_variable_references()
}

/// The criterion `k` has a non-empty list of local objects.
pub open spec fn has_local_object(local: CtnMap<Vec<ObjectDeclaration>>, k: usize) -> bool {
    local.has(k) && local.at(k)@.len() > 0
}

/// Put the parsed objects into the resolution context: the global objects,
/// and for each criterion the first of its local objects (at most one is
/// allowed); then hand over the errors and deferred validations.
pub fn apply_object_parsing_to_context(
    global_objects: Vec<ObjectDeclaration>,
    local_objects: CtnMap<Vec<ObjectDeclaration>>,
    parsing_context: ObjectParsingContext,
    resolution_context: &mut ResolutionContext,
)
    requires
        local_objects.wf(),
        context_wf(*old(resolution_context)),
    ensures
        context_wf(*final(resolution_context)),
        final(resolution_context).global_objects == global_objects,
        forall|k: usize| final(resolution_context).ctn_local_objects.has(k)
            <==> (old(resolution_context).ctn_local_objects.has(k) || has_local_object(local_objects, k)),
        forall|k: usize| has_local_object(local_objects, k)
            ==> final(resolution_context).ctn_local_objects.at(k) == local_objects.at(k)@[0],
        forall|k: usize| !has_local_object(local_objects, k) && old(resolution_context).ctn_local_objects.has(k)
            ==> final(resolution_context).ctn_local_objects.at(k) == old(resolution_context).ctn_local_objects.at(k),
        final(resolution_context).parsing_errors@
            == old(resolution_context).parsing_errors@ + parsing_context.parsing_errors@,
        final(resolution_context).deferred_validations@
            == old(resolution_context).deferred_validations@ + parsing_context.deferred_validations@,
        *final(resolution_context) == (ResolutionContext {
            global_objects: final(resolution_context).global_objects,
            ctn_local_objects: final(resolution_context).ctn_local_objects,
            parsing_errors: final(resolution_context).parsing_errors,
            deferred_validations: final(resolution_context).deferred_validations,
            ..*old(resolution_context)
        }),
{
    let ghost c0 = *resolution_context;
    let ghost local = local_objects;
    let ghost all = local_objects.entries@;
    resolution_context.global_objects = global_objects;
    let mut rest = local_objects.entries;
    let n = rest.len();
    let mut k: usize = 0;
    proof {
        assert(rest@ =~= all.subrange(0, all.len() as int));
    }
    while rest.len() > 0
        invariant
            k <= n,
            all.len() == n,
            all == local.entries@,
            local.wf(),
            rest@ == all.subrange(k as int, n as int),
            context_wf(*resolution_context),
            *resolution_context == (ResolutionContext {
                global_objects: resolution_context.global_objects,
                ctn_local_objects: resolution_context.ctn_local_objects,
                ..c0
            }),
            resolution_context.global_objects == global_objects,
            forall|key: usize| #[trigger] resolution_context.ctn_local_objects.has(key) <==> (c0.ctn_local_objects.has(key)
                || exists|j: int| 0 <= j < k && #[trigger] all[j].0 == key && all[j].1@.len() > 0),
            forall|j: int| 0 <= j < k && all[j].1@.len() > 0
                ==> resolution_context.ctn_local_objects.at(#[trigger] all[j].0) == all[j].1@[0],
            forall|key: usize| c0.ctn_local_objects.has(key)
                && !(exists|j: int| 0 <= j < k && #[trigger] all[j].0 == key && all[j].1@.len() > 0)
                ==> #[trigger] resolution_context.ctn_local_objects.at(key) == c0.ctn_local_objects.at(key),
        decreases n - k,
    {
        let (ctn_node_id, mut objects) = rest.remove(0);
        proof {
            assert(all[k as int] == (ctn_node_id, objects));
        }
        if objects.len() > 0 {
            let ghost before = resolution_context.ctn_local_objects;
            let object = objects.remove(0);
            resolution_context.ctn_local_objects.insert(ctn_node_id, object);
            proof {
                assert forall|j: int| 0 <= j < k + 1 && all[j].1@.len() > 0
                    implies resolution_context.ctn_local_objects.at(#[trigger] all[j].0) == all[j].1@[0] by {
                    if j < k {
                        assert(all[j].0 != ctn_node_id) by {
                            assert(crate::string_map::ctn_keys(all)[j] == all[j].0);
                            assert(crate::string_map::ctn_keys(all)[k as int] == all[k as int].0);
                        }
                        assert(exists|j2: int| 0 <= j2 < k && #[trigger] all[j2].0 == all[j].0 && all[j2].1@.len() > 0);
                        assert(before.has(all[j].0));
                        assert(before.at(all[j].0) == all[j].1@[0]);
                    }
                }
                assert forall|key: usize| resolution_context.ctn_local_objects.has(key) <==> (c0.ctn_local_objects.has(key)
                    || exists|j: int| 0 <= j < k + 1 && #[trigger] all[j].0 == key && all[j].1@.len() > 0) by {
                    if exists|j: int| 0 <= j < k + 1 && #[trigger] all[j].0 == key && all[j].1@.len() > 0 {
                        let j = choose|j: int| 0 <= j < k + 1 && #[trigger] all[j].0 == key && all[j].1@.len() > 0;
                        if j < k {
                            assert(exists|j2: int| 0 <= j2 < k && #[trigger] all[j2].0 == key && all[j2].1@.len() > 0);
                            assert(before.has(key));
                        }
                    }
                    if before.has(key) && key != ctn_node_id && !c0.ctn_local_objects.has(key) {
                        let j = choose|j: int| 0 <= j < k && #[trigger] all[j].0 == key && all[j].1@.len() > 0;
                        assert(0 <= j < k + 1);
                    }
                }
                assert forall|key: usize| c0.ctn_local_objects.has(key)
                    && !(exists|j: int| 0 <= j < k + 1 && #[trigger] all[j].0 == key && all[j].1@.len() > 0)
                    implies resolution_context.ctn_local_objects.at(key) == c0.ctn_local_objects.at(key) by {
                    assert(key != ctn_node_id);
                    assert(!(exists|j: int| 0 <= j < k && #[trigger] all[j].0 == key && all[j].1@.len() > 0)) by {
                        if exists|j: int| 0 <= j < k && #[trigger] all[j].0 == key && all[j].1@.len() > 0 {
                            let j = choose|j: int| 0 <= j < k && #[trigger] all[j].0 == key && all[j].1@.len() > 0;
                            assert(0 <= j < k + 1);
                        }
                    }
                }
            }
        } else {
            proof {
                assert forall|key: usize| resolution_context.ctn_local_objects.has(key) <==> (c0.ctn_local_objects.has(key)
                    || exists|j: int| 0 <= j < k + 1 && #[trigger] all[j].0 == key && all[j].1@.len() > 0) by {
                    if exists|j: int| 0 <= j < k + 1 && #[trigger] all[j].0 == key && all[j].1@.len() > 0 {
                        let j = choose|j: int| 0 <= j < k + 1 && #[trigger] all[j].0 == key && all[j].1@.len() > 0;
                        assert(j < k);
                    }
                }
                assert forall|key: usize| c0.ctn_local_objects.has(key)
                    && !(exists|j: int| 0 <= j < k + 1 && #[trigger] all[j].0 == key && all[j].1@.len() > 0)
                    implies resolution_context.ctn_local_objects.at(key) == c0.ctn_local_objects.at(key) by {
                    assert(!(exists|j: int| 0 <= j < k && #[trigger] all[j].0 == key && all[j].1@.len() > 0)) by {
                        if exists|j: int| 0 <= j < k && #[trigger] all[j].0 == key && all[j].1@.len() > 0 {
                            let j = choose|j: int| 0 <= j < k && #[trigger] all[j].0 == key && all[j].1@.len() > 0;
                            assert(0 <= j < k + 1);
                        }
                    }
                }
            }
        }
        k = k + 1;
        proof {
            assert(rest@ =~= all.subrange(k as int, n as int));
        }
    }
    proof {
        assert forall|key: usize| has_local_object(local, key)
            <==> exists|j: int| 0 <= j < n && #[trigger] all[j].0 == key && all[j].1@.len() > 0 by {
            if has_local_object(local, key) {
                let j = local.index_of(key);
                assert(0 <= j < n && crate::string_map::ctn_keys(all)[j] == key);
                assert(all[j].0 == key);
            }
            if exists|j: int| 0 <= j < n && #[trigger] all[j].0 == key && all[j].1@.len() > 0 {
                let j = choose|j: int| 0 <= j < n && #[trigger] all[j].0 == key && all[j].1@.len() > 0;
                local.lemma_ctn_key_at(j);
            }
        }
        assert forall|key: usize| has_local_object(local, key)
            implies resolution_context.ctn_local_objects.at(key) == local.at(key)@[0] by {
            let j = local.index_of(key);
            assert(0 <= j < n && crate::string_map::ctn_keys(all)[j] == key);
            local.lemma_ctn_key_at(j);
        }
    }
    parsing_context.apply_to_resolution_context(resolution_context);
}

/// The (key, value) pairs of a `fields` list: the items that are arrays of
/// exactly two strings; others are skipped.
pub open spec fn json_pairs(items: Seq<JsonValue>) -> Seq<(Seq<char>, Seq<char>)>
    decreases items.len(),
{
    if items.len() == 0 {
        Seq::empty()
    } else {
        json_pairs(items.drop_last()) + match items.last() {
            JsonValue::Array(p) => if p@.len() == 2 && json_str(p@[0]) is Some && json_str(p@[1]) is Some {
                seq![(json_str(p@[0])->Some_0, json_str(p@[1])->Some_0)]
            } else {
                Seq::empty()
            },
            _ => Seq::empty(),
        }
    }
}

/// The strings among a list of JSON values, in order.
pub open spec fn json_strings(items: Seq<JsonValue>) -> Seq<Seq<char>>
    decreases items.len(),
{
    if items.len() == 0 {
        Seq::empty()
    } else {
        json_strings(items.drop_last()) + match json_str(items.last()) {
            Some(x) => seq![x],
            None => Seq::empty(),
        }
    }
}

/// The `state_id` strings of the objects among a list of JSON values, in order.
pub open spec fn json_state_ids(items: Seq<JsonValue>) -> Seq<Seq<char>>
    decreases items.len(),
{
    if items.len() == 0 {
        Seq::empty()
    } else {
        json_state_ids(items.drop_last()) + if items.last() is Object && json_get_str(items.last(), "state_id"@) is Some {
            seq![json_get_str(items.last(), "state_id"@)->Some_0]
        } else {
            Seq::empty()
        }
    }
}

/// The items of an optional array member; none for anything else.
pub open spec fn json_items(o: Option<JsonValue>) -> Seq<JsonValue> {
    match o {
        Some(JsonValue::Array(a)) => a@,
        _ => Seq::empty(),
    }
}

/// The action a filter element names; `Include` when absent.
pub open spec fn element_filter_action(f: JsonValue) -> Seq<char> {
    match json_get_str(f, "action"@) {
        Some(a) => a,
        None => "Include"@,
    }
}

/// The message of the error an object element gives, if any.
pub open spec fn element_error(e: JsonValue, id: Seq<char>) -> Option<Seq<char>> {
    if json_get(e, "Field"@) is Some {
        let f = json_get(e, "Field"@)->Some_0;
        if json_get_str(f, "name"@) is None {
            Some("Field missing name"@)
        } else if json_get(f, "value"@) is None {
            Some("Field missing value"@)
        } else if !value_json_ok(json_get(f, "value"@)->Some_0) {
            Some("Unknown value type in JSON"@)
        } else {
            None
        }
    } else if json_get(e, "Parameter"@) is Some {
        typed_element_error(json_get(e, "Parameter"@)->Some_0, "Parameter missing data_type"@)
    } else if json_get(e, "Select"@) is Some {
        typed_element_error(json_get(e, "Select"@)->Some_0, "Select missing data_type"@)
    } else if json_get(e, "Behavior"@) is Some {
        if json_get(json_get(e, "Behavior"@)->Some_0, "values"@) matches Some(JsonValue::Array(_)) {
            None
        } else {
            Some("Behavior missing values"@)
        }
    } else if json_get(e, "Filter"@) is Some {
        None
    } else if json_get(e, "SetRef"@) is Some {
        if json_get_str(json_get(e, "SetRef"@)->Some_0, "set_id"@) is Some { None } else { Some("SetRef missing set_id"@) }
    } else if json_get(e, "Module"@) is Some {
        let m = json_get(e, "Module"@)->Some_0;
        if json_get_str(m, "field"@) is None {
            Some("Module missing field"@)
        } else if module_field_of(json_get_str(m, "field"@)->Some_0) is None {
            Some("Invalid module field: "@ + json_get_str(m, "field"@)->Some_0)
        } else if json_get_str(m, "value"@) is None {
            Some("Module missing value"@)
        } else {
            None
        }
    } else {
        Some("Unknown object element type in object '"@ + id + "'"@)
    }
}

/// The message of the error a parameter or select element gives, if any.
pub open spec fn typed_element_error(p: JsonValue, missing: Seq<char>) -> Option<Seq<char>> {
    match json_get_str(p, "data_type"@) {
        None => Some(missing),
        Some(dt) => if is_data_type_name(dt) { None } else { Some("Invalid data type: "@ + dt) },
    }
}

/// The (key, value) pairs of a list of field pairs as plain values.
pub open spec fn pair_views(s: Seq<(String, String)>) -> Seq<(Seq<char>, Seq<char>)> {
    s.map_values(|p: (String, String)| (p.0@, p.1@))
}

/// `el` is the element that the well-formed `e` describes.
pub open spec fn element_parsed(e: JsonValue, el: ObjectElement) -> bool {
    if json_get(e, "Field"@) is Some {
        let f = json_get(e, "Field"@)->Some_0;
        el matches ObjectElement::Field { name, value } && name@ == json_get_str(f, "name"@)->Some_0
            && value_from_json(json_get(f, "value"@)->Some_0, value)
    } else if json_get(e, "Parameter"@) is Some {
        let p = json_get(e, "Parameter"@)->Some_0;
        el matches ObjectElement::Parameter { data_type, fields }
            && data_type_name(data_type) == json_get_str(p, "data_type"@)->Some_0
            && pair_views(fields@) == json_pairs(json_items(json_get(p, "fields"@)))
    } else if json_get(e, "Select"@) is Some {
        let p = json_get(e, "Select"@)->Some_0;
        el matches ObjectElement::Select { data_type, fields }
            && data_type_name(data_type) == json_get_str(p, "data_type"@)->Some_0
            && pair_views(fields@) == json_pairs(json_items(json_get(p, "fields"@)))
    } else if json_get(e, "Behavior"@) is Some {
        el matches ObjectElement::Behavior { values }
            && views(values@) == json_strings(json_items(json_get(json_get(e, "Behavior"@)->Some_0, "values"@)))
    } else if json_get(e, "Filter"@) is Some {
        let f = json_get(e, "Filter"@)->Some_0;
        el matches ObjectElement::Filter(fs)
            && fs.action == (if element_filter_action(f) == "exclude"@ { FilterAction::Exclude } else { FilterAction::Include })
            && views(fs.state_refs@) == json_state_ids(json_items(json_get(f, "state_refs"@)))
    } else if json_get(e, "SetRef"@) is Some {
        el matches ObjectElement::SetRef { set_id } && set_id@ == json_get_str(json_get(e, "SetRef"@)->Some_0, "set_id"@)->Some_0
    } else {
        let m = json_get(e, "Module"@)->Some_0;
        el matches ObjectElement::Module { field, value }
            && module_field_of(json_get_str(m, "field"@)->Some_0) == Some(field)
            && value@ == json_get_str(m, "value"@)->Some_0
    }
}

/// The validations a well-formed element of the object `id` defers: the
/// variable of a field, the states of a filter, the SET of a SET reference.
pub open spec fn element_deferrals(e: JsonValue, id: Seq<char>) -> Seq<(ValidationType, Seq<char>, Seq<char>, Seq<char>)> {
    if json_get(e, "Field"@) is Some {
        let f = json_get(e, "Field"@)->Some_0;
        let v = json_get(f, "value"@)->Some_0;
        if json_get_str(v, "String"@) is None && crate::parser::variable::json_int(json_get(v, "Integer"@)) is None
            && crate::parser::variable::json_float(json_get(v, "Float"@)) is None
            && crate::parser::variable::json_bool(json_get(v, "Boolean"@)) is None
        {
            seq![(ValidationType::VariableReference, id, json_get_str(v, "Variable"@)->Some_0,
                "field '"@ + json_get_str(f, "name"@)->Some_0 + "' in object '"@ + id + "'"@)]
        } else {
            Seq::empty()
        }
    } else if json_get(e, "Parameter"@) is Some || json_get(e, "Select"@) is Some || json_get(e, "Behavior"@) is Some {
        Seq::empty()
    } else if json_get(e, "Filter"@) is Some {
        json_state_ids(json_items(json_get(json_get(e, "Filter"@)->Some_0, "state_refs"@))).map_values(
            |s: Seq<char>| (ValidationType::FilterStateReference, id, s, "filter in object '"@ + id + "'"@))
    } else if json_get(e, "SetRef"@) is Some {
        seq![(ValidationType::SetReference, id, json_get_str(json_get(e, "SetRef"@)->Some_0, "set_id"@)->Some_0,
            "SetRef in object '"@ + id + "'"@)]
    } else {
        Seq::empty()
    }
}

/// The non-fatal errors a well-formed element of the object `id` records:
/// an unknown filter action, which reads as `include`.
pub open spec fn element_notes(e: JsonValue, id: Seq<char>) -> Seq<Seq<char>> {
    if json_get(e, "Field"@) is None && json_get(e, "Parameter"@) is None && json_get(e, "Select"@) is None
        && json_get(e, "Behavior"@) is None && json_get(e, "Filter"@) is Some
    {
        let a = element_filter_action(json_get(e, "Filter"@)->Some_0);
        if a == "include"@ || a == "exclude"@ {
            Seq::empty()
        } else {
            seq!["Invalid filter action '"@ + a + "' in object '"@ + id + "', defaulting to Include"@]
        }
    } else {
        Seq::empty()
    }
}

/// Read the `fields` pairs of a parameter or select element.
fn parse_field_pairs(p: &JsonValue) -> (res: Vec<(String, String)>)
    ensures
        pair_views(res@) == json_pairs(json_items(json_get(*p, "fields"@))),
{
    let mut out: Vec<(String, String)> = Vec::new();
    let items = match p.get("fields") {
        Some(v) => match v.as_array() {
            Some(a) => a,
            None => {
                proof { assert(pair_views(out@) =~= Seq::<(Seq<char>, Seq<char>)>::empty()); }
                return out;
            },
        },
        None => {
            proof { assert(pair_views(out@) =~= Seq::<(Seq<char>, Seq<char>)>::empty()); }
            return out;
        },
    };
    let mut i: usize = 0;
    proof {
        assert(items@.subrange(0, 0) =~= Seq::<JsonValue>::empty());
        assert(pair_views(out@) =~= Seq::<(Seq<char>, Seq<char>)>::empty());
    }
    while i < items.len()
        invariant
            i <= items@.len(),
            json_items(json_get(*p, "fields"@)) == items@,
            pair_views(out@) == json_pairs(items@.subrange(0, i as int)),
        decreases items@.len() - i,
    {
        proof {
            let sub = items@.subrange(0, i + 1);
            assert(sub.drop_last() =~= items@.subrange(0, i as int));
            assert(sub.last() == items@[i as int]);
        }
        let ghost before = pair_views(out@);
        if let Some(pair) = items[i].as_array() {
            if pair.len() == 2 {
                if let (Some(k), Some(v)) = (pair[0].as_str(), pair[1].as_str()) {
                    out.push((to_owned_string(k), to_owned_string(v)));
                    proof { assert(pair_views(out@) =~= before.push((k@, v@))); }
                }
            }
        }
        proof {
            assert(pair_views(out@) =~= json_pairs(items@.subrange(0, i + 1)));
        }
        i = i + 1;
    }
    proof {
        assert(items@.subrange(0, items@.len() as int) =~= items@);
    }
    out
}

/// Read the strings of a `values` list.
fn parse_strings(items: &Vec<JsonValue>) -> (res: Vec<String>)
    ensures
        views(res@) == json_strings(items@),
{
    let mut out: Vec<String> = Vec::new();
    let mut i: usize = 0;
    proof {
        assert(items@.subrange(0, 0) =~= Seq::<JsonValue>::empty());
        assert(views(out@) =~= Seq::<Seq<char>>::empty());
    }
    while i < items.len()
        invariant
            i <= items@.len(),
            views(out@) == json_strings(items@.subrange(0, i as int)),
        decreases items@.len() - i,
    {
        proof {
            let sub = items@.subrange(0, i + 1);
            assert(sub.drop_last() =~= items@.subrange(0, i as int));
            assert(sub.last() == items@[i as int]);
        }
        let ghost before = views(out@);
        if let Some(x) = items[i].as_str() {
            out.push(to_owned_string(x));
            proof { assert(views(out@) =~= before.push(x@)); }
        }
        proof {
            assert(views(out@) =~= json_strings(items@.subrange(0, i + 1)));
        }
        i = i + 1;
    }
    proof {
        assert(items@.subrange(0, items@.len() as int) =~= items@);
    }
    out
}

/// Parse one element of the object `object_id`, deferring the validation of
/// the variables, states and SETs it names.
fn parse_object_element_from_json(element_json: &JsonValue, object_id: &str,
    parsing_context: &mut ObjectParsingContext) -> (res: Result<ObjectElement, ResolutionError>)
    ensures
        match res {
            Ok(el) => {
                &&& element_error(*element_json, object_id@) is None
                &&& element_parsed(*element_json, el)
                &&& deferrals(final(parsing_context).deferred_validations@)
                    == deferrals(old(parsing_context).deferred_validations@) + element_deferrals(*element_json, object_id@)
                &&& views(final(parsing_context).parsing_errors@)
                    == views(old(parsing_context).parsing_errors@) + element_notes(*element_json, object_id@)
            },
            Err(e) => e matches ResolutionError::InvalidInput { message }
                && element_error(*element_json, object_id@) == Some(message@)
                && *final(parsing_context) == *old(parsing_context),
        },
{
    let ghost d0 = deferrals(parsing_context.deferred_validations@);
    let ghost e0 = views(parsing_context.parsing_errors@);
    if let Some(f) = element_json.get("Field") {
        let name = match f.get_str("name") {
            Some(n) => n,
            None => {
                return Err(ResolutionError::InvalidInput { message: to_owned_string("Field missing name") });
            },
        };
        let value_json = match f.get("value") {
            Some(v) => v,
            None => {
                return Err(ResolutionError::InvalidInput { message: to_owned_string("Field missing value") });
            },
        };
        let value = match parse_value_from_json(value_json) {
            Ok(v) => v,
            Err(e) => {
                return Err(e);
            },
        };
        if let Value::Variable(var_name) = &value {
            let ghost dv = parsing_context.deferred_validations@;
            let tail = concat2(object_id, "'");
            let msg = concat4("field '", name, "' in object '", tail.as_str());
            proof {
                assert(msg@ =~= "field '"@ + name@ + "' in object '"@ + object_id@ + "'"@);
            }
            parsing_context.defer_variable_reference(to_owned_string(object_id), var_name.clone(), msg);
            proof {
                assert(deferrals(parsing_context.deferred_validations@) =~= deferrals(dv).push(
                    (ValidationType::VariableReference, object_id@, var_name@,
                        "field '"@ + name@ + "' in object '"@ + object_id@ + "'"@)));
            }
        }
        proof {
            assert(deferrals(parsing_context.deferred_validations@) =~= d0 + element_deferrals(*element_json, object_id@));
            assert(views(parsing_context.parsing_errors@) =~= e0 + element_notes(*element_json, object_id@));
        }
        return Ok(ObjectElement::Field { name: to_owned_string(name), value });
    }
    if let Some(p) = element_json.get("Parameter") {
        let dt = match p.get_str("data_type") {
            Some(d) => d,
            None => {
                return Err(ResolutionError::InvalidInput { message: to_owned_string("Parameter missing data_type") });
            },
        };
        let data_type = match DataType::from_str(dt) {
            Some(t) => t,
            None => {
                return Err(ResolutionError::InvalidInput { message: concat2("Invalid data type: ", dt) });
            },
        };
        let fields = parse_field_pairs(p);
        proof {
            assert(deferrals(parsing_context.deferred_validations@) =~= d0 + element_deferrals(*element_json, object_id@));
            assert(views(parsing_context.parsing_errors@) =~= e0 + element_notes(*element_json, object_id@));
        }
        return Ok(ObjectElement::Parameter { data_type, fields });
    }
    if let Some(p) = element_json.get("Select") {
        let dt = match p.get_str("data_type") {
            Some(d) => d,
            None => {
                return Err(ResolutionError::InvalidInput { message: to_owned_string("Select missing data_type") });
            },
        };
        let data_type = match DataType::from_str(dt) {
            Some(t) => t,
            None => {
                return Err(ResolutionError::InvalidInput { message: concat2("Invalid data type: ", dt) });
            },
        };
        let fields = parse_field_pairs(p);
        proof {
            assert(deferrals(parsing_context.deferred_validations@) =~= d0 + element_deferrals(*element_json, object_id@));
            assert(views(parsing_context.parsing_errors@) =~= e0 + element_notes(*element_json, object_id@));
        }
        return Ok(ObjectElement::Select { data_type, fields });
    }
    if let Some(b) = element_json.get("Behavior") {
        let items = match b.get("values") {
            Some(v) => match v.as_array() {
                Some(a) => a,
                None => {
                    return Err(ResolutionError::InvalidInput { message: to_owned_string("Behavior missing values") });
                },
            },
            None => {
                return Err(ResolutionError::InvalidInput { message: to_owned_string("Behavior missing values") });
            },
        };
        let values = parse_strings(items);
        proof {
            assert(deferrals(parsing_context.deferred_validations@) =~= d0 + element_deferrals(*element_json, object_id@));
            assert(views(parsing_context.parsing_errors@) =~= e0 + element_notes(*element_json, object_id@));
        }
        return Ok(ObjectElement::Behavior { values });
    }
    if let Some(f) = element_json.get("Filter") {
        let action_str = match f.get_str("action") {
            Some(a) => a,
            None => "Include",
        };
        proof {
            reveal_strlit("Include");
            reveal_strlit("include");
            reveal_strlit("exclude");
        }
        let action = match FilterAction::from_str(action_str) {
            Some(a) => a,
            None => {
                let tail = concat2(object_id, "', defaulting to Include");
                let msg = concat4("Invalid filter action '", action_str, "' in object '", tail.as_str());
                proof {
                    assert(msg@ =~= "Invalid filter action '"@ + action_str@ + "' in object '"@ + object_id@
                        + "', defaulting to Include"@);
                }
                parsing_context.add_parsing_error(msg);
                FilterAction::Include
            },
        };
        let ghost e1 = views(parsing_context.parsing_errors@);
        proof {
            assert(action_str@ == element_filter_action(*f));
            assert("include"@ != "exclude"@) by {
                assert("include"@[0] == 'i');
                assert("exclude"@[0] == 'e');
            }
            assert(action == (if element_filter_action(*f) == "exclude"@ { FilterAction::Exclude } else { FilterAction::Include }));
            assert(e1 =~= e0 + element_notes(*element_json, object_id@));
        }
        let empty: Vec<JsonValue> = Vec::new();
        let items: &Vec<JsonValue> = match f.get("state_refs") {
            Some(v) => match v.as_array() {
                Some(a) => a,
                None => &empty,
            },
            None => &empty,
        };
        let ctx = concat3("filter in object '", object_id, "'");
        let ghost tag = |x: Seq<char>| (ValidationType::FilterStateReference, object_id@, x, "filter in object '"@ + object_id@ + "'"@);
        let mut refs: Vec<String> = Vec::new();
        let mut i: usize = 0;
        proof {
            assert(items@.subrange(0, 0) =~= Seq::<JsonValue>::empty());
            assert(views(refs@) =~= Seq::<Seq<char>>::empty());
            assert(deferrals(parsing_context.deferred_validations@) =~= d0 + Seq::<Seq<char>>::empty().map_values(tag));
        }
        while i < items.len()
            invariant
                i <= items@.len(),
                ctx@ == "filter in object '"@ + object_id@ + "'"@,
                tag == (|x: Seq<char>| (ValidationType::FilterStateReference, object_id@, x, "filter in object '"@ + object_id@ + "'"@)),
                views(parsing_context.parsing_errors@) == e1,
                views(refs@) == json_state_ids(items@.subrange(0, i as int)),
                deferrals(parsing_context.deferred_validations@) == d0 + views(refs@).map_values(tag),
            decreases items@.len() - i,
        {
            proof {
                let sub = items@.subrange(0, i + 1);
                assert(sub.drop_last() =~= items@.subrange(0, i as int));
                assert(sub.last() == items@[i as int]);
            }
            let ghost rb = views(refs@);
            let ghost dv = parsing_context.deferred_validations@;
            if items[i].is_object() {
                if let Some(sid) = items[i].get_str("state_id") {
                    parsing_context.defer_filter_state_reference(to_owned_string(object_id), to_owned_string(sid), ctx.clone());
                    refs.push(to_owned_string(sid));
                    proof {
                        assert(views(refs@) =~= rb.push(sid@));
                        assert(deferrals(parsing_context.deferred_validations@) =~= deferrals(dv).push(tag(sid@)));
                        assert(views(refs@).map_values(tag) =~= rb.map_values(tag).push(tag(sid@)));
                    }
                }
            }
            proof {
                assert(views(refs@) =~= json_state_ids(items@.subrange(0, i + 1)));
            }
            i = i + 1;
        }
        proof {
            assert(items@.subrange(0, items@.len() as int) =~= items@);
            assert(items@ == json_items(json_get(*f, "state_refs"@)));
            assert(deferrals(parsing_context.deferred_validations@) =~= d0 + element_deferrals(*element_json, object_id@));
            reveal_strlit("include");
            reveal_strlit("exclude");
        }
        return Ok(ObjectElement::Filter(FilterSpec { action, state_refs: refs }));
    }
    if let Some(r) = element_json.get("SetRef") {
        let set_id = match r.get_str("set_id") {
            Some(x) => x,
            None => {
                return Err(ResolutionError::InvalidInput { message: to_owned_string("SetRef missing set_id") });
            },
        };
        let ghost dv = parsing_context.deferred_validations@;
        parsing_context.defer_set_reference(to_owned_string(object_id), to_owned_string(set_id),
            concat3("SetRef in object '", object_id, "'"));
        proof {
            assert(deferrals(parsing_context.deferred_validations@) =~= d0 + element_deferrals(*element_json, object_id@));
            assert(views(parsing_context.parsing_errors@) =~= e0 + element_notes(*element_json, object_id@));
        }
        return Ok(ObjectElement::SetRef { set_id: to_owned_string(set_id) });
    }
    if let Some(m) = element_json.get("Module") {
        let field_str = match m.get_str("field") {
            Some(x) => x,
            None => {
                return Err(ResolutionError::InvalidInput { message: to_owned_string("Module missing field") });
            },
        };
        let field = match ModuleField::from_str(field_str) {
            Some(x) => x,
            None => {
                return Err(ResolutionError::InvalidInput { message: concat2("Invalid module field: ", field_str) });
            },
        };
        let value = match m.get_str("value") {
            Some(x) => x,
            None => {
                return Err(ResolutionError::InvalidInput { message: to_owned_string("Module missing value") });
            },
        };
        proof {
            assert(deferrals(parsing_context.deferred_validations@) =~= d0 + element_deferrals(*element_json, object_id@));
            assert(views(parsing_context.parsing_errors@) =~= e0 + element_notes(*element_json, object_id@));
        }
        return Ok(ObjectElement::Module { field, value: to_owned_string(value) });
    }
    Err(ResolutionError::InvalidInput { message: concat3("Unknown object element type in object '", object_id, "'") })
}

/// The positions of the elements of a list that parse, in order.
pub open spec fn good_elements(items: Seq<JsonValue>, id: Seq<char>) -> Seq<int>
    decreases items.len(),
{
    if items.len() == 0 {
        Seq::empty()
    } else {
        good_elements(items.drop_last(), id) + if element_error(items.last(), id) is None {
            seq![items.len() - 1]
        } else {
            Seq::empty()
        }
    }
}

/// The non-fatal errors the elements of the object `id` record: for an
/// element that does not parse, a message naming its position.
pub open spec fn object_element_notes(items: Seq<JsonValue>, id: Seq<char>) -> Seq<Seq<char>>
    decreases items.len(),
{
    if items.len() == 0 {
        Seq::empty()
    } else {
        object_element_notes(items.drop_last(), id) + match element_error(items.last(), id) {
            Some(m) => seq!["Failed to parse element "@ + decimal((items.len() - 1) as nat) + " in object '"@ + id + "': "@
                + invalid_input_debug(m)],
            None => element_notes(items.last(), id),
        }
    }
}

/// The validations the elements of the object `id` that parse defer, in order.
pub open spec fn object_element_deferrals(items: Seq<JsonValue>, id: Seq<char>)
    -> Seq<(ValidationType, Seq<char>, Seq<char>, Seq<char>)>
    decreases items.len(),
{
    if items.len() == 0 {
        Seq::empty()
    } else {
        object_element_deferrals(items.drop_last(), id) + if element_error(items.last(), id) is None {
            element_deferrals(items.last(), id)
        } else {
            Seq::empty()
        }
    }
}

/// The message of the error an object declaration gives, if any.
pub open spec fn object_error(j: JsonValue) -> Option<Seq<char>> {
    match json_get_str(j, "id"@) {
        None => Some("Object missing id"@),
        Some(id) => match json_get(j, "elements"@) {
            Some(JsonValue::Array(a)) => if a@.len() == 0 {
                Some("Object '"@ + id + "' cannot be empty"@)
            } else {
                None
            },
            _ => Some("Object missing elements"@),
        },
    }
}

/// The element declarations of a well-formed object declaration.
pub open spec fn object_items(j: JsonValue) -> Seq<JsonValue> {
    json_items(json_get(j, "elements"@))
}

/// `o` is the object that the well-formed `j` describes: the elements that
/// parse, in order.
pub open spec fn object_parsed(j: JsonValue, is_global: bool, o: ObjectDeclaration) -> bool {
    let id = json_get_str(j, "id"@)->Some_0;
    let pos = good_elements(object_items(j), id);
    &&& o.identifier@ == id
    &&& o.is_global == is_global
    &&& o.elements@.len() == pos.len()
    &&& forall|k: int| 0 <= k < pos.len() ==> element_parsed(object_items(j)[pos[k]], #[trigger] o.elements@[k])
}

/// The positions kept lie in the list.
pub proof fn lemma_good_elements_bounded(items: Seq<JsonValue>, id: Seq<char>)
    ensures
        forall|k: int| 0 <= k < good_elements(items, id).len() ==> 0 <= #[trigger] good_elements(items, id)[k] < items.len(),
    decreases items.len(),
{
    if items.len() > 0 {
        let pre = items.drop_last();
        lemma_good_elements_bounded(pre, id);
        let all = good_elements(items, id);
        assert forall|k: int| 0 <= k < all.len() implies 0 <= #[trigger] all[k] < items.len() by {
            if k < good_elements(pre, id).len() {
                assert(all[k] == good_elements(pre, id)[k]);
            }
        }
    }
}

/// Parse an object declaration. An element that does not parse is recorded
/// as a parsing error and skipped.
pub fn parse_object_from_json(obj_json: &JsonValue, is_global: bool, parsing_context: &mut ObjectParsingContext)
    -> (res: Result<ObjectDeclaration, ResolutionError>)
    ensures
        match res {
            Ok(o) => {
                let id = json_get_str(*obj_json, "id"@)->Some_0;
                &&& object_error(*obj_json) is None
                &&& object_parsed(*obj_json, is_global, o)
                &&& deferrals(final(parsing_context).deferred_validations@)
                    == deferrals(old(parsing_context).deferred_validations@) + object_element_deferrals(object_items(*obj_json), id)
                &&& views(final(parsing_context).parsing_errors@)
                    == views(old(parsing_context).parsing_errors@) + object_element_notes(object_items(*obj_json), id)
            },
            Err(e) => e matches ResolutionError::InvalidInput { message } && object_error(*obj_json) == Some(message@)
                && *final(parsing_context) == *old(parsing_context),
        },
{
    let identifier = match obj_json.get_str("id") {
        Some(x) => x,
        None => {
            return Err(ResolutionError::InvalidInput { message: to_owned_string("Object missing id") });
        },
    };
    let items = match obj_json.get("elements") {
        Some(v) => match v.as_array() {
            Some(a) => a,
            None => {
                return Err(ResolutionError::InvalidInput { message: to_owned_string("Object missing elements") });
            },
        },
        None => {
            return Err(ResolutionError::InvalidInput { message: to_owned_string("Object missing elements") });
        },
    };
    if items.len() == 0 {
        return Err(ResolutionError::InvalidInput { message: concat3("Object '", identifier, "' cannot be empty") });
    }
    let ghost id = identifier@;
    let ghost d0 = deferrals(parsing_context.deferred_validations@);
    let ghost e0 = views(parsing_context.parsing_errors@);
    let mut elements: Vec<ObjectElement> = Vec::new();
    let mut i: usize = 0;
    proof {
        assert(items@.subrange(0, 0) =~= Seq::<JsonValue>::empty());
        assert(deferrals(parsing_context.deferred_validations@) =~= d0 + Seq::<(ValidationType, Seq<char>, Seq<char>, Seq<char>)>::empty());
        assert(views(parsing_context.parsing_errors@) =~= e0 + Seq::<Seq<char>>::empty());
    }
    while i < items.len()
        invariant
            i <= items@.len(),
            items@ == object_items(*obj_json),
            id == identifier@,
            elements@.len() == good_elements(items@.subrange(0, i as int), id).len(),
            forall|k: int| 0 <= k < elements@.len() ==> element_parsed(
                items@[good_elements(items@.subrange(0, i as int), id)[k]], #[trigger] elements@[k]),
            deferrals(parsing_context.deferred_validations@) == d0 + object_element_deferrals(items@.subrange(0, i as int), id),
            views(parsing_context.parsing_errors@) == e0 + object_element_notes(items@.subrange(0, i as int), id),
        decreases items@.len() - i,
    {
        let ghost sub = items@.subrange(0, i + 1);
        let ghost pre = good_elements(items@.subrange(0, i as int), id);
        proof {
            assert(sub.drop_last() =~= items@.subrange(0, i as int));
            assert(sub.last() == items@[i as int]);
            lemma_good_elements_bounded(items@.subrange(0, i as int), id);
        }
        let ghost db = deferrals(parsing_context.deferred_validations@);
        let ghost eb = views(parsing_context.parsing_errors@);
        match parse_object_element_from_json(&items[i], identifier, parsing_context) {
            Ok(el) => {
                elements.push(el);
                proof {
                    assert(good_elements(sub, id) == pre.push(i as int));
                    assert forall|k: int| 0 <= k < elements@.len() implies element_parsed(
                        items@[good_elements(sub, id)[k]], #[trigger] elements@[k]) by {
                        if k < pre.len() {
                            assert(good_elements(sub, id)[k] == pre[k]);
                        }
                    }
                    assert(element_error(items@[i as int], id) is None);

                    assert(object_element_deferrals(sub, id) == object_element_deferrals(items@.subrange(0, i as int), id)
                        + element_deferrals(items@[i as int], id));
                    assert(object_element_notes(sub, id) == object_element_notes(items@.subrange(0, i as int), id)
                        + element_notes(items@[i as int], id));
                    assert(deferrals(parsing_context.deferred_validations@) =~= d0 + object_element_deferrals(sub, id));
                    assert(views(parsing_context.parsing_errors@) =~= e0 + object_element_notes(sub, id));
                }
            },
            Err(e) => {
                let msg = match &e {
                    ResolutionError::InvalidInput { message } => message.as_str(),
                    _ => "",
                };
                let n = usize_to_string(i);
                let head = concat4("Failed to parse element ", n.as_str(), " in object '", identifier);
                let dbg = debug_invalid_input(msg);
                let note = concat3(head.as_str(), "': ", dbg.as_str());
                let ghost pe = parsing_context.parsing_errors@;
                parsing_context.add_parsing_error(note);
                proof {
                    assert(good_elements(sub, id) =~= pre);
                    assert(views(parsing_context.parsing_errors@) =~= views(pe).push(note@));
                    assert(deferrals(parsing_context.deferred_validations@) =~= d0 + object_element_deferrals(sub, id));
                    assert(views(parsing_context.parsing_errors@) =~= e0 + object_element_notes(sub, id));
                }
            },
        }
        i = i + 1;
    }
    proof {
        assert(items@.subrange(0, items@.len() as int) =~= items@);
    }
    Ok(ObjectDeclaration { identifier: to_owned_string(identifier), elements, is_global })
}

/// The position and message of the first object declaration of a list that
/// gives an error.
pub open spec fn first_object_error(items: Seq<JsonValue>) -> Option<(nat, Seq<char>)>
    decreases items.len(),
{
    if items.len() == 0 {
        None
    } else {
        match first_object_error(items.drop_last()) {
            Some(e) => Some(e),
            None => match object_error(items.last()) {
                Some(m) => Some(((items.len() - 1) as nat, m)),
                None => None,
            },
        }
    }
}

/// Once a prefix holds an error, the first error of the whole list is that of the prefix.
proof fn lemma_first_object_error_extends(items: Seq<JsonValue>, k: int)
    requires
        0 <= k <= items.len(),
        first_object_error(items.subrange(0, k)) is Some,
    ensures
        first_object_error(items) == first_object_error(items.subrange(0, k)),
    decreases items.len() - k,
{
    if k == items.len() {
        assert(items.subrange(0, k) =~= items);
    } else {
        assert(items.subrange(0, k + 1).drop_last() =~= items.subrange(0, k));
        lemma_first_object_error_extends(items, k + 1);
    }
}

/// The validations a list of well-formed object declarations defers, in order.
pub open spec fn objects_deferrals(items: Seq<JsonValue>) -> Seq<(ValidationType, Seq<char>, Seq<char>, Seq<char>)>
    decreases items.len(),
{
    if items.len() == 0 {
        Seq::empty()
    } else {
        objects_deferrals(items.drop_last())
            + object_element_deferrals(object_items(items.last()), json_get_str(items.last(), "id"@)->Some_0)
    }
}

/// The non-fatal errors a list of well-formed object declarations records, in order.
pub open spec fn objects_notes(items: Seq<JsonValue>) -> Seq<Seq<char>>
    decreases items.len(),
{
    if items.len() == 0 {
        Seq::empty()
    } else {
        objects_notes(items.drop_last())
            + object_element_notes(object_items(items.last()), json_get_str(items.last(), "id"@)->Some_0)
    }
}

/// The global object declarations of a definition.
pub open spec fn definition_objects(def: JsonValue) -> Seq<JsonValue> {
    json_items(json_get(def, "objects"@))
}

/// Parse the global objects of a definition; the first that gives an error
/// stops the parse.
fn extract_global_objects(definition: &JsonValue, parsing_context: &mut ObjectParsingContext)
    -> (res: Result<Vec<ObjectDeclaration>, ResolutionError>)
    ensures
        match res {
            Ok(objs) => {
                let items = definition_objects(*definition);
                &&& first_object_error(items) is None
                &&& objs@.len() == items.len()
                &&& forall|k: int| 0 <= k < objs@.len() ==> object_parsed(items[k], true, #[trigger] objs@[k])
                &&& deferrals(final(parsing_context).deferred_validations@)
                    == deferrals(old(parsing_context).deferred_validations@) + objects_deferrals(items)
                &&& views(final(parsing_context).parsing_errors@) == views(old(parsing_context).parsing_errors@) + objects_notes(items)
            },
            Err(e) => e matches ResolutionError::InvalidInput { message }
                && first_object_error(definition_objects(*definition)) matches Some(fe) && message@ == fe.1,
        },
{
    let empty: Vec<JsonValue> = Vec::new();
    let items: &Vec<JsonValue> = match definition.get("objects") {
        Some(v) => match v.as_array() {
            Some(a) => a,
            None => &empty,
        },
        None => &empty,
    };
    let ghost d0 = deferrals(parsing_context.deferred_validations@);
    let ghost e0 = views(parsing_context.parsing_errors@);
    let mut objs: Vec<ObjectDeclaration> = Vec::new();
    let mut i: usize = 0;
    proof {
        assert(items@.subrange(0, 0) =~= Seq::<JsonValue>::empty());
        assert(deferrals(parsing_context.deferred_validations@) =~= d0 + Seq::<(ValidationType, Seq<char>, Seq<char>, Seq<char>)>::empty());
        assert(views(parsing_context.parsing_errors@) =~= e0 + Seq::<Seq<char>>::empty());
    }
    while i < items.len()
        invariant
            i <= items@.len(),
            items@ == definition_objects(*definition),
            first_object_error(items@.subrange(0, i as int)) is None,
            objs@.len() == i,
            forall|k: int| 0 <= k < i ==> object_parsed(items@[k], true, #[trigger] objs@[k]),
            deferrals(parsing_context.deferred_validations@) == d0 + objects_deferrals(items@.subrange(0, i as int)),
            views(parsing_context.parsing_errors@) == e0 + objects_notes(items@.subrange(0, i as int)),
        decreases items@.len() - i,
    {
        let ghost sub = items@.subrange(0, i + 1);
        proof {
            assert(sub.drop_last() =~= items@.subrange(0, i as int));
            assert(sub.last() == items@[i as int]);
        }
        match parse_object_from_json(&items[i], true, parsing_context) {
            Ok(o) => {
                objs.push(o);
                proof {
                    assert(deferrals(parsing_context.deferred_validations@) =~= d0 + objects_deferrals(sub));
                    assert(views(parsing_context.parsing_errors@) =~= e0 + objects_notes(sub));
                }
            },
            Err(e) => {
                proof {
                    lemma_first_object_error_extends(items@, i + 1);
                }
                return Err(e);
            },
        }
        i = i + 1;
    }
    proof {
        assert(items@.subrange(0, items@.len() as int) =~= items@);
    }
    Ok(objs)
}

/// The criterion declarations among the content items of a criteria block.
pub open spec fn content_criteria(items: Seq<JsonValue>) -> Seq<JsonValue>
    decreases items.len(),
{
    if items.len() == 0 {
        Seq::empty()
    } else {
        content_criteria(items.drop_last()) + match json_get(items.last(), "Criterion"@) {
            Some(c) => seq![c],
            None => Seq::empty(),
        }
    }
}

/// The criterion declarations directly inside a list of criteria blocks, in order.
pub open spec fn blocks_criteria(blocks: Seq<JsonValue>) -> Seq<JsonValue>
    decreases blocks.len(),
{
    if blocks.len() == 0 {
        Seq::empty()
    } else {
        blocks_criteria(blocks.drop_last()) + content_criteria(json_items(json_get(blocks.last(), "content"@)))
    }
}

/// The criterion declarations directly inside the criteria blocks of a
/// definition; the position of each is its CTN node id.
pub open spec fn definition_criteria(def: JsonValue) -> Seq<JsonValue> {
    blocks_criteria(json_items(json_get(def, "criteria"@)))
}

/// The local object a criterion declares, when present and not null.
pub open spec fn local_object_json(c: JsonValue) -> Option<JsonValue> {
    match json_get(c, "local_object"@) {
        Some(o) => if o is Null { None } else { Some(o) },
        None => None,
    }
}

/// What parsing the local objects of a list of criteria records: for a local
/// object that does not parse, a message naming the criterion; otherwise
/// what its elements record.
pub open spec fn local_objects_notes(crits: Seq<JsonValue>) -> Seq<Seq<char>>
    decreases crits.len(),
{
    if crits.len() == 0 {
        Seq::empty()
    } else {
        local_objects_notes(crits.drop_last()) + match local_object_json(crits.last()) {
            Some(o) => match object_error(o) {
                Some(m) => seq!["Failed to parse local object in CTN "@ + decimal((crits.len() - 1) as nat) + ": "@
                    + invalid_input_debug(m)],
                None => object_element_notes(object_items(o), json_get_str(o, "id"@)->Some_0),
            },
            None => Seq::empty(),
        }
    }
}

/// The validations the local objects of a list of criteria defer, in order.
pub open spec fn local_objects_deferrals(crits: Seq<JsonValue>) -> Seq<(ValidationType, Seq<char>, Seq<char>, Seq<char>)>
    decreases crits.len(),
{
    if crits.len() == 0 {
        Seq::empty()
    } else {
        local_objects_deferrals(crits.drop_last()) + match local_object_json(crits.last()) {
            Some(o) => if object_error(o) is None {
                object_element_deferrals(object_items(o), json_get_str(o, "id"@)->Some_0)
            } else {
                Seq::empty()
            },
            None => Seq::empty(),
        }
    }
}

/// The criterion declares a local object that parses.
pub open spec fn local_object_ok(c: JsonValue) -> bool {
    match local_object_json(c) {
        Some(o) => object_error(o) is None,
        None => false,
    }
}

/// `m` holds, under the position of each criterion whose local object
/// parses, that object alone.
pub open spec fn local_objects_parsed(crits: Seq<JsonValue>, m: CtnMap<Vec<ObjectDeclaration>>) -> bool {
    &&& m.wf()
    &&& forall|c: usize| m.has(c) <==> (c < crits.len() && local_object_ok(crits[c as int]))
    &&& forall|c: usize| m.has(c) ==> m.at(c)@.len() == 1
        && object_parsed(local_object_json(crits[c as int])->Some_0, false, m.at(c)@[0])
}

/// The criteria of a prefix of the content items are a prefix of its criteria.
pub proof fn lemma_content_prefix(items: Seq<JsonValue>, j: int)
    requires
        0 <= j <= items.len(),
    ensures
        content_criteria(items.subrange(0, j)).len() <= content_criteria(items).len(),
        content_criteria(items.subrange(0, j)).is_prefix_of(content_criteria(items)),
    decreases items.len() - j,
{
    if j < items.len() {
        assert(items.subrange(0, j + 1).drop_last() =~= items.subrange(0, j));
        lemma_content_prefix(items, j + 1);
        let a = content_criteria(items.subrange(0, j));
        let b = content_criteria(items.subrange(0, j + 1));
        let c = content_criteria(items);
        assert(a.is_prefix_of(b));
        assert(a =~= c.subrange(0, a.len() as int));
    } else {
        assert(items.subrange(0, j) =~= items);
        assert(content_criteria(items) =~= content_criteria(items).subrange(0, content_criteria(items).len() as int));
    }
}

/// The criteria of a prefix of the blocks are a prefix of their criteria.
pub proof fn lemma_blocks_prefix(blocks: Seq<JsonValue>, i: int)
    requires
        0 <= i <= blocks.len(),
    ensures
        blocks_criteria(blocks.subrange(0, i)).len() <= blocks_criteria(blocks).len(),
        blocks_criteria(blocks.subrange(0, i)).is_prefix_of(blocks_criteria(blocks)),
    decreases blocks.len() - i,
{
    if i < blocks.len() {
        assert(blocks.subrange(0, i + 1).drop_last() =~= blocks.subrange(0, i));
        lemma_blocks_prefix(blocks, i + 1);
        let a = blocks_criteria(blocks.subrange(0, i));
        let b = blocks_criteria(blocks.subrange(0, i + 1));
        let c = blocks_criteria(blocks);
        assert(a.is_prefix_of(b));
        assert(a =~= c.subrange(0, a.len() as int));
    } else {
        assert(blocks.subrange(0, i) =~= blocks);
        assert(blocks_criteria(blocks) =~= blocks_criteria(blocks).subrange(0, blocks_criteria(blocks).len() as int));
    }
}

/// Parse the local object of the criterion `c` at position `ctn`, if it
/// declares one; one that does not parse is recorded as a parsing error.
fn parse_criterion_local_object(c: &JsonValue, ctn: usize, seen: Ghost<Seq<JsonValue>>,
    parsing_context: &mut ObjectParsingContext, locals: &mut CtnMap<Vec<ObjectDeclaration>>)
    requires
        seen@.len() == ctn,
        local_objects_parsed(seen@, *old(locals)),
    ensures
        local_objects_parsed(seen@.push(*c), *final(locals)),
        deferrals(final(parsing_context).deferred_validations@) == deferrals(old(parsing_context).deferred_validations@)
            + local_objects_deferrals(seen@.push(*c)).subrange(local_objects_deferrals(seen@).len() as int,
                local_objects_deferrals(seen@.push(*c)).len() as int),
        local_objects_deferrals(seen@.push(*c)).len() >= local_objects_deferrals(seen@).len(),
        local_objects_deferrals(seen@.push(*c)).subrange(0, local_objects_deferrals(seen@).len() as int)
            == local_objects_deferrals(seen@),
        views(final(parsing_context).parsing_errors@) == views(old(parsing_context).parsing_errors@)
            + local_objects_notes(seen@.push(*c)).subrange(local_objects_notes(seen@).len() as int,
                local_objects_notes(seen@.push(*c)).len() as int),
        local_objects_notes(seen@.push(*c)).len() >= local_objects_notes(seen@).len(),
        local_objects_notes(seen@.push(*c)).subrange(0, local_objects_notes(seen@).len() as int)
            == local_objects_notes(seen@),
{
    let ghost all = seen@.push(*c);
    proof {
        assert(all.drop_last() =~= seen@);
        assert(all.last() == *c);
    }
    let ghost dn = local_objects_deferrals(seen@).len() as int;
    let ghost en = local_objects_notes(seen@).len() as int;
    let ghost d0 = deferrals(parsing_context.deferred_validations@);
    let ghost e0 = views(parsing_context.parsing_errors@);
    let ghost m0 = *locals;
    let mut handled = false;
    if let Some(o) = c.get("local_object") {
        if !o.is_null() {
            handled = true;
            match parse_object_from_json(o, false, parsing_context) {
                Ok(obj) => {
                    let mut v: Vec<ObjectDeclaration> = Vec::new();
                    v.push(obj);
                    proof {
                        assert(!m0.has(ctn));
                    }
                    locals.insert(ctn, v);
                    proof {
                        assert forall|k: usize| locals.has(k) <==> (k < all.len() && local_object_ok(all[k as int])) by {
                            if k < ctn {
                                assert(all[k as int] == seen@[k as int]);
                            }
                        }
                        assert forall|k: usize| locals.has(k) implies locals.at(k)@.len() == 1
                            && object_parsed(local_object_json(all[k as int])->Some_0, false, locals.at(k)@[0]) by {
                            if k != ctn {
                                assert(all[k as int] == seen@[k as int]);
                            }
                        }
                        assert(local_objects_deferrals(all).subrange(dn, local_objects_deferrals(all).len() as int)
                            =~= object_element_deferrals(object_items(*o), json_get_str(*o, "id"@)->Some_0));
                        assert(local_objects_notes(all).subrange(en, local_objects_notes(all).len() as int)
                            =~= object_element_notes(object_items(*o), json_get_str(*o, "id"@)->Some_0));
                        assert(local_objects_deferrals(all).subrange(0, dn) =~= local_objects_deferrals(seen@));
                        assert(local_objects_notes(all).subrange(0, en) =~= local_objects_notes(seen@));
                    }
                },
                Err(e) => {
                    let msg = match &e {
                        ResolutionError::InvalidInput { message } => message.as_str(),
                        _ => "",
                    };
                    let n = usize_to_string(ctn);
                    let dbg = debug_invalid_input(msg);
                    let note = concat4("Failed to parse local object in CTN ", n.as_str(), ": ", dbg.as_str());
                    let ghost pe = parsing_context.parsing_errors@;
                    parsing_context.add_parsing_error(note);
                    proof {
                        assert(views(parsing_context.parsing_errors@) =~= views(pe).push(note@));
                        assert forall|k: usize| locals.has(k) <==> (k < all.len() && local_object_ok(all[k as int])) by {
                            if k < ctn {
                                assert(all[k as int] == seen@[k as int]);
                            }
                        }
                        assert forall|k: usize| locals.has(k) implies locals.at(k)@.len() == 1
                            && object_parsed(local_object_json(all[k as int])->Some_0, false, locals.at(k)@[0]) by {
                            assert(all[k as int] == seen@[k as int]);
                        }
                        assert(local_objects_deferrals(all).subrange(dn, local_objects_deferrals(all).len() as int)
                            =~= Seq::<(ValidationType, Seq<char>, Seq<char>, Seq<char>)>::empty());
                        assert(local_objects_notes(all).subrange(en, local_objects_notes(all).len() as int) =~= seq![note@]);
                        assert(local_objects_deferrals(all).subrange(0, dn) =~= local_objects_deferrals(seen@));
                        assert(local_objects_notes(all).subrange(0, en) =~= local_objects_notes(seen@));
                        assert(deferrals(parsing_context.deferred_validations@) =~= d0
                            + Seq::<(ValidationType, Seq<char>, Seq<char>, Seq<char>)>::empty());
                    }
                },
            }
        }
    }
    if !handled {
        proof {
            assert(local_object_json(*c) is None);
            assert forall|k: usize| locals.has(k) <==> (k < all.len() && local_object_ok(all[k as int])) by {
                if k < ctn {
                    assert(all[k as int] == seen@[k as int]);
                }
            }
            assert forall|k: usize| locals.has(k) implies locals.at(k)@.len() == 1
                && object_parsed(local_object_json(all[k as int])->Some_0, false, locals.at(k)@[0]) by {
                assert(all[k as int] == seen@[k as int]);
            }
            assert(local_objects_deferrals(all) =~= local_objects_deferrals(seen@));
            assert(local_objects_notes(all) =~= local_objects_notes(seen@));
            assert(local_objects_deferrals(all).subrange(dn, dn) =~= Seq::<(ValidationType, Seq<char>, Seq<char>, Seq<char>)>::empty());
            assert(local_objects_notes(all).subrange(en, en) =~= Seq::<Seq<char>>::empty());
            assert(local_objects_deferrals(all).subrange(0, dn) =~= local_objects_deferrals(seen@));
            assert(local_objects_notes(all).subrange(0, en) =~= local_objects_notes(seen@));
            assert(deferrals(parsing_context.deferred_validations@) =~= d0
                + Seq::<(ValidationType, Seq<char>, Seq<char>, Seq<char>)>::empty());
            assert(views(parsing_context.parsing_errors@) =~= e0 + Seq::<Seq<char>>::empty());
        }
    }
}

/// Parse the local objects of the criteria of a definition, keyed by the
/// position of their criterion; one that does not parse is recorded as a
/// parsing error and skipped.
fn extract_local_objects_from_criteria(definition: &JsonValue, parsing_context: &mut ObjectParsingContext)
    -> (res: CtnMap<Vec<ObjectDeclaration>>)
    requires
        definition_criteria(*definition).len() <= usize::MAX,
    ensures
        local_objects_parsed(definition_criteria(*definition), res),
        deferrals(final(parsing_context).deferred_validations@) == deferrals(old(parsing_context).deferred_validations@)
            + local_objects_deferrals(definition_criteria(*definition)),
        views(final(parsing_context).parsing_errors@) == views(old(parsing_context).parsing_errors@)
            + local_objects_notes(definition_criteria(*definition)),
{
    let empty: Vec<JsonValue> = Vec::new();
    let blocks: &Vec<JsonValue> = match definition.get("criteria") {
        Some(v) => match v.as_array() {
            Some(a) => a,
            None => &empty,
        },
        None => &empty,
    };
    let ghost total = definition_criteria(*definition);
    let ghost d0 = deferrals(parsing_context.deferred_validations@);
    let ghost e0 = views(parsing_context.parsing_errors@);
    let mut locals: CtnMap<Vec<ObjectDeclaration>> = CtnMap::new();
    let mut counter: usize = 0;
    let ghost mut seen: Seq<JsonValue> = Seq::empty();
    let mut i: usize = 0;
    proof {
        assert(blocks@.subrange(0, 0) =~= Seq::<JsonValue>::empty());
        assert(deferrals(parsing_context.deferred_validations@) =~= d0 + Seq::<(ValidationType, Seq<char>, Seq<char>, Seq<char>)>::empty());
        assert(views(parsing_context.parsing_errors@) =~= e0 + Seq::<Seq<char>>::empty());
    }
    while i < blocks.len()
        invariant
            i <= blocks@.len(),
            total == blocks_criteria(blocks@),
            total.len() <= usize::MAX,
            seen == blocks_criteria(blocks@.subrange(0, i as int)),
            counter == seen.len(),
            local_objects_parsed(seen, locals),
            deferrals(parsing_context.deferred_validations@) == d0 + local_objects_deferrals(seen),
            views(parsing_context.parsing_errors@) == e0 + local_objects_notes(seen),
        decreases blocks@.len() - i,
    {
        let ghost bsub = blocks@.subrange(0, i + 1);
        proof {
            assert(bsub.drop_last() =~= blocks@.subrange(0, i as int));
            assert(bsub.last() == blocks@[i as int]);
            lemma_blocks_prefix(blocks@, i + 1);
        }
        let empty_content: Vec<JsonValue> = Vec::new();
        let content: &Vec<JsonValue> = match blocks[i].get("content") {
            Some(v) => match v.as_array() {
                Some(a) => a,
                None => &empty_content,
            },
            None => &empty_content,
        };
        let ghost base = seen;
        let mut j: usize = 0;
        proof {
            assert(content@.subrange(0, 0) =~= Seq::<JsonValue>::empty());
            assert(base + content_criteria(content@.subrange(0, 0)) =~= base);
        }
        while j < content.len()
            invariant
                j <= content@.len(),
                content@ == json_items(json_get(blocks@[i as int], "content"@)),
                base + content_criteria(content@) == blocks_criteria(bsub),
                blocks_criteria(bsub).len() <= usize::MAX,
                seen == base + content_criteria(content@.subrange(0, j as int)),
                counter == seen.len(),
                local_objects_parsed(seen, locals),
                deferrals(parsing_context.deferred_validations@) == d0 + local_objects_deferrals(seen),
                views(parsing_context.parsing_errors@) == e0 + local_objects_notes(seen),
            decreases content@.len() - j,
        {
            let ghost csub = content@.subrange(0, j + 1);
            proof {
                assert(csub.drop_last() =~= content@.subrange(0, j as int));
                assert(csub.last() == content@[j as int]);
                lemma_content_prefix(content@, j + 1);
            }
            if let Some(c) = content[j].get("Criterion") {
                let ghost db = deferrals(parsing_context.deferred_validations@);
                let ghost eb = views(parsing_context.parsing_errors@);
                parse_criterion_local_object(c, counter, Ghost(seen), parsing_context, &mut locals);
                proof {
                    let next = seen.push(*c);
                    let ld = local_objects_deferrals(seen);
                    let ln = local_objects_notes(seen);
                    let nd = local_objects_deferrals(next);
                    let nn = local_objects_notes(next);
                    assert(nd =~= ld + nd.subrange(ld.len() as int, nd.len() as int));
                    assert(nn =~= ln + nn.subrange(ln.len() as int, nn.len() as int));
                    assert(deferrals(parsing_context.deferred_validations@) =~= d0 + nd);
                    assert(views(parsing_context.parsing_errors@) =~= e0 + nn);
                    assert(content_criteria(csub) == content_criteria(content@.subrange(0, j as int)).push(*c));
                    assert(base + content_criteria(csub) =~= next);
                    seen = next;
                }
                counter = counter + 1;
            } else {
                proof {
                    assert(content_criteria(csub) == content_criteria(content@.subrange(0, j as int)));
                }
            }
            j = j + 1;
        }
        proof {
            assert(content@.subrange(0, content@.len() as int) =~= content@);
        }
        i = i + 1;
    }
    proof {
        assert(blocks@.subrange(0, blocks@.len() as int) =~= blocks@);
    }
    locals
}

/// Parse the global objects of the definition of an AST and the local
/// objects of its criteria, with the context collected while parsing them.
pub fn extract_objects_from_json(ast_json: &JsonValue)
    -> (res: Result<(Vec<ObjectDeclaration>, CtnMap<Vec<ObjectDeclaration>>, ObjectParsingContext), ResolutionError>)
    requires
        json_get(*ast_json, "definition"@) matches Some(d) ==> definition_criteria(d).len() <= usize::MAX,
    ensures
        match res {
            Ok(r) => json_get(*ast_json, "definition"@) matches Some(d) && {
                let items = definition_objects(d);
                let crits = definition_criteria(d);
                &&& first_object_error(items) is None
                &&& r.0@.len() == items.len()
                &&& forall|k: int| 0 <= k < r.0@.len() ==> object_parsed(items[k], true, #[trigger] r.0@[k])
                &&& local_objects_parsed(crits, r.1)
                &&& deferrals(r.2.deferred_validations@) == objects_deferrals(items) + local_objects_deferrals(crits)
                &&& views(r.2.parsing_errors@) == objects_notes(items) + local_objects_notes(crits)
            },
            Err(e) => e matches ResolutionError::InvalidInput { message } && match json_get(*ast_json, "definition"@) {
                None => message@ == "No definition found in AST"@,
                Some(d) => first_object_error(definition_objects(d)) matches Some(fe) && message@ == fe.1,
            },
        },
{
    let mut parsing_context = ObjectParsingContext::new();
    let definition = match ast_json.get("definition") {
        Some(d) => d,
        None => {
            return Err(ResolutionError::InvalidInput { message: to_owned_string("No definition found in AST") });
        },
    };
    proof {
        assert(deferrals(parsing_context.deferred_validations@) =~= Seq::empty());
        assert(views(parsing_context.parsing_errors@) =~= Seq::empty());
    }
    let globals = match extract_global_objects(definition, &mut parsing_context) {
        Ok(g) => g,
        Err(e) => {
            return Err(e);
        },
    };
    let locals = extract_local_objects_from_criteria(definition, &mut parsing_context);
    proof {
        assert(objects_deferrals(definition_objects(*definition)) =~= Seq::empty() + objects_deferrals(definition_objects(*definition)));
    }
    Ok((globals, locals, parsing_context))
}

} // verus!
