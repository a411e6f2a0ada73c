//! Execution of SET operations: union, intersection and complement of the
//! objects named by the operands, in definition order.

use vstd::prelude::*;
use crate::strings::{str_eq, concat2, concat3, concat5, usize_to_string};
use crate::string_map::StringMap;
use crate::types::common::{Value, ResolvedValue};
use crate::types::object::{ObjectDeclaration, ObjectElement, ResolvedObject, ResolvedObjectElement, same_object, same_element};
use crate::types::set::{SetOperand, SetOperation, SetOperationType, ResolvedSetOperand, ResolvedSetOperation,
    operand_count_ok, filter_refs};
use crate::types::state::StateDeclaration;
use crate::types::filter::{ResolvedFilterSpec, clone_strings};
use crate::types::variable::ResolvedVariable;
use crate::types::resolution_context::{ResolutionContext, context_wf};
use crate::types::set::operand_count_message;
use crate::resolution::error::ResolutionError;

verus! {

/// The identifiers of a list of objects, in order.
pub open spec fn object_ids(s: Seq<ResolvedObject>) -> Seq<Seq<char>> {
    s.map_values(|o: ResolvedObject| o.identifier@)
}

/// Two lists of objects carry the same data, position by position.
pub open spec fn same_objects(a: Seq<ResolvedObject>, b: Seq<ResolvedObject>) -> bool {
    &&& a.len() == b.len()
    &&& forall|i: int| 0 <= i < a.len() ==> same_object(#[trigger] a[i], b[i])
}

/// The objects of all operand lists, one list after the other.
pub open spec fn all_objects(lists: Seq<Vec<ResolvedObject>>) -> Seq<ResolvedObject>
    decreases lists.len(),
{
    if lists.len() == 0 {
        Seq::empty()
    } else {
        all_objects(lists.drop_last()) + lists.last()@
    }
}

/// The first object of each identifier, in order of first occurrence.
pub open spec fn first_by_id(s: Seq<ResolvedObject>) -> Seq<ResolvedObject>
    decreases s.len(),
{
    if s.len() == 0 {
        Seq::empty()
    } else {
        let p = first_by_id(s.drop_last());
        if object_ids(p).contains(s.last().identifier@) { p } else { p.push(s.last()) }
    }
}

/// `id` is the identifier of some object in every one of `lists`.
pub open spec fn id_in_all(id: Seq<char>, lists: Seq<Vec<ResolvedObject>>) -> bool {
    forall|k: int| 0 <= k < lists.len() ==> object_ids(#[trigger] lists[k]@).contains(id)
}

/// The objects of `s` whose identifier occurs in every one of `others`, in order.
pub open spec fn kept_in_all(s: Seq<ResolvedObject>, others: Seq<Vec<ResolvedObject>>) -> Seq<ResolvedObject>
    decreases s.len(),
{
    if s.len() == 0 {
        Seq::empty()
    } else {
        let p = kept_in_all(s.drop_last(), others);
        if id_in_all(s.last().identifier@, others) { p.push(s.last()) } else { p }
    }
}

/// The objects of `s` whose identifier does not occur in `other`, in order.
pub open spec fn kept_outside(s: Seq<ResolvedObject>, other: Seq<ResolvedObject>) -> Seq<ResolvedObject>
    decreases s.len(),
{
    if s.len() == 0 {
        Seq::empty()
    } else {
        let p = kept_outside(s.drop_last(), other);
        if object_ids(other).contains(s.last().identifier@) { p } else { p.push(s.last()) }
    }
}

/// Lists that carry the same data have the same identifiers.
pub proof fn lemma_same_ids(a: Seq<ResolvedObject>, b: Seq<ResolvedObject>)
    requires
        same_objects(a, b),
    ensures
        object_ids(a) == object_ids(b),
{
    assert forall|i: int| 0 <= i < a.len() implies object_ids(a)[i] == object_ids(b)[i] by {
        assert(same_object(a[i], b[i]));
    }
    assert(object_ids(a) =~= object_ids(b));
}

/// Whether some object of `objs` has the identifier `id`.
pub fn contains_id(objs: &Vec<ResolvedObject>, id: &str) -> (res: bool)
    ensures
        res == object_ids(objs@).contains(id@),
{
    let mut i: usize = 0;
    while i < objs.len()
        invariant
            i <= objs@.len(),
            forall|j: int| 0 <= j < i ==> objs@[j].identifier@ != id@,
        decreases objs@.len() - i,
    {
        if str_eq(objs[i].identifier.as_str(), id) {
            proof {
                assert(object_ids(objs@)[i as int] == id@);
            }
            return true;
        }
        i = i + 1;
    }
    proof {
        if object_ids(objs@).contains(id@) {
            let j = choose|j: int| 0 <= j < object_ids(objs@).len() && object_ids(objs@)[j] == id@;
            assert(objs@[j].identifier@ == id@);
        }
    }
    false
}

/// Whether every list of `lists` from position `from` on holds an object
/// with the identifier `id`.
fn id_in_lists(lists: &[Vec<ResolvedObject>], from: usize, id: &str) -> (res: bool)
    requires
        from <= lists@.len(),
    ensures
        res == id_in_all(id@, lists@.subrange(from as int, lists@.len() as int)),
{
    let ghost rest = lists@.subrange(from as int, lists@.len() as int);
    let mut k: usize = from;
    while k < lists.len()
        invariant
            from <= k <= lists@.len(),
            rest == lists@.subrange(from as int, lists@.len() as int),
            forall|m: int| from <= m < k ==> object_ids(#[trigger] lists@[m]@).contains(id@),
        decreases lists@.len() - k,
    {
        if !contains_id(&lists[k], id) {
            proof {
                assert(rest[k - from] == lists@[k as int]);
            }
            return false;
        }
        k = k + 1;
    }
    proof {
        assert forall|m: int| 0 <= m < rest.len() implies object_ids(#[trigger] rest[m]@).contains(id@) by {
            assert(rest[m] == lists@[from + m]);
        }
    }
    true
}

/// UNION: every object of every operand, keeping only the first object of
/// each identifier.
pub fn execute_union(object_lists: &[Vec<ResolvedObject>], set_id: &str) -> (res: Result<Vec<ResolvedObject>, ResolutionError>)
    ensures
        res matches Ok(v) && same_objects(v@, first_by_id(all_objects(object_lists@))),
{
    let mut result: Vec<ResolvedObject> = Vec::new();
    let mut k: usize = 0;
    while k < object_lists.len()
        invariant
            k <= object_lists@.len(),
            same_objects(result@, first_by_id(all_objects(object_lists@.subrange(0, k as int)))),
        decreases object_lists@.len() - k,
    {
        let list = &object_lists[k];
        let ghost pre = all_objects(object_lists@.subrange(0, k as int));
        let mut j: usize = 0;
        proof {
            assert(list@.subrange(0, 0) =~= Seq::<ResolvedObject>::empty());
            assert(pre + list@.subrange(0, 0) =~= pre);
        }
        while j < list.len()
            invariant
                j <= list@.len(),
                same_objects(result@, first_by_id(pre + list@.subrange(0, j as int))),
            decreases list@.len() - j,
        {
            let obj = &list[j];
            let ghost s = pre + list@.subrange(0, j as int);
            proof {
                assert((pre + list@.subrange(0, j + 1)).drop_last() =~= s);
                assert((pre + list@.subrange(0, j + 1)).last() == list@[j as int]);
                lemma_same_ids(result@, first_by_id(s));
            }
            if !contains_id(&result, obj.identifier.as_str()) {
                let ghost before = result@;
                result.push(obj.clone());
                proof {
                    assert forall|i: int| 0 <= i < result@.len() implies
                        same_object(#[trigger] result@[i], first_by_id(s).push(list@[j as int])[i]) by {
                        if i < before.len() {
                            assert(result@[i] == before[i]);
                        }
                    }
                }
            }
            j = j + 1;
        }
        proof {
            assert(list@.subrange(0, list@.len() as int) =~= list@);
            assert(object_lists@.subrange(0, k + 1).drop_last() =~= object_lists@.subrange(0, k as int));
        }
        k = k + 1;
    }
    proof {
        assert(object_lists@.subrange(0, object_lists@.len() as int) =~= object_lists@);
    }
    Ok(result)
}

/// INTERSECTION: the objects of the first operand whose identifier occurs in
/// every other operand (nothing when there is no operand).
pub fn execute_intersection(object_lists: &[Vec<ResolvedObject>], set_id: &str) -> (res: Result<Vec<ResolvedObject>, ResolutionError>)
    ensures
        res matches Ok(v) && same_objects(v@,
            if object_lists@.len() == 0 {
                Seq::empty()
            } else {
                kept_in_all(object_lists@[0]@, object_lists@.subrange(1, object_lists@.len() as int))
            }),
{
    let mut result: Vec<ResolvedObject> = Vec::new();
    if object_lists.len() == 0 {
        return Ok(result);
    }
    let first = &object_lists[0];
    let ghost others = object_lists@.subrange(1, object_lists@.len() as int);
    let mut i: usize = 0;
    while i < first.len()
        invariant
            i <= first@.len(),
            object_lists@.len() > 0,
            first == &object_lists@[0],
            others == object_lists@.subrange(1, object_lists@.len() as int),
            same_objects(result@, kept_in_all(first@.subrange(0, i as int), others)),
        decreases first@.len() - i,
    {
        let obj = &first[i];
        proof {
            assert(first@.subrange(0, i + 1).drop_last() =~= first@.subrange(0, i as int));
        }
        if id_in_lists(object_lists, 1, obj.identifier.as_str()) {
            let ghost before = result@;
            result.push(obj.clone());
            proof {
                let spec_prev = kept_in_all(first@.subrange(0, i as int), others);
                assert forall|m: int| 0 <= m < result@.len() implies
                    same_object(#[trigger] result@[m], spec_prev.push(first@[i as int])[m]) by {
                    if m < before.len() {
                        assert(result@[m] == before[m]);
                    }
                }
            }
        }
        i = i + 1;
    }
    proof {
        assert(first@.subrange(0, first@.len() as int) =~= first@);
    }
    Ok(result)
}

/// COMPLEMENT: the objects of the first operand whose identifier does not
/// occur in the second; exactly two operands are required.
pub fn execute_complement(object_lists: &[Vec<ResolvedObject>], set_id: &str) -> (res: Result<Vec<ResolvedObject>, ResolutionError>)
    ensures
        object_lists@.len() == 2 ==> (res matches Ok(v)
            && same_objects(v@, kept_outside(object_lists@[0]@, object_lists@[1]@))),
        object_lists@.len() != 2 ==> (res matches Err(ResolutionError::SetOperationFailed { set_id: s, reason: r })
            && s@ == set_id@
            && r@ == operand_count_message(crate::types::set::SetOperationType::Complement, object_lists@.len())),
{
    if object_lists.len() != 2 {
        let reason = concat2("COMPLEMENT requires exactly 2 operands, got ", usize_to_string(object_lists.len()).as_str());
        return Err(ResolutionError::SetOperationFailed { set_id: String::from_str(set_id), reason });
    }
    let first = &object_lists[0];
    let second = &object_lists[1];
    let mut result: Vec<ResolvedObject> = Vec::new();
    let mut i: usize = 0;
    while i < first.len()
        invariant
            i <= first@.len(),
            object_lists@.len() == 2,
            first == &object_lists@[0],
            second == &object_lists@[1],
            same_objects(result@, kept_outside(first@.subrange(0, i as int), second@)),
        decreases first@.len() - i,
    {
        let obj = &first[i];
        proof {
            assert(first@.subrange(0, i + 1).drop_last() =~= first@.subrange(0, i as int));
        }
        if !contains_id(second, obj.identifier.as_str()) {
            let ghost before = result@;
            result.push(obj.clone());
            proof {
                let spec_prev = kept_outside(first@.subrange(0, i as int), second@);
                assert forall|m: int| 0 <= m < result@.len() implies
                    same_object(#[trigger] result@[m], spec_prev.push(first@[i as int])[m]) by {
                    if m < before.len() {
                        assert(result@[m] == before[m]);
                    }
                }
            }
        }
        i = i + 1;
    }
    proof {
        assert(first@.subrange(0, first@.len() as int) =~= first@);
    }
    Ok(result)
}


/// The value of a field after resolution; `None` when it names a variable
/// that has not been resolved.
pub open spec fn resolved_field_value(v: Value, vars: StringMap<ResolvedVariable>) -> Option<ResolvedValue> {
    match v {
        Value::String(s) => Some(ResolvedValue::String(s)),
        Value::Integer(i) => Some(ResolvedValue::Integer(i)),
        Value::Float(f) => Some(ResolvedValue::Float(f)),
        Value::Boolean(b) => Some(ResolvedValue::Boolean(b)),
        Value::Variable(n) => if vars.has(n@) { Some(vars.at(n@).value) } else { None },
    }
}

/// `e` is a field that names a variable that has not been resolved.
pub open spec fn unresolved_field(e: ObjectElement, vars: StringMap<ResolvedVariable>) -> bool {
    e matches ObjectElement::Field { value, .. } && resolved_field_value(value, vars) is None
}

/// Every field of `elems` can be resolved.
pub open spec fn inline_resolvable(elems: Seq<ObjectElement>, vars: StringMap<ResolvedVariable>) -> bool {
    forall|i: int| 0 <= i < elems.len() ==> !unresolved_field(#[trigger] elems[i], vars)
}

/// The resolved elements of an inline object: its fields with their values
/// resolved, in order; other elements are left out.
pub open spec fn inline_elements(elems: Seq<ObjectElement>, vars: StringMap<ResolvedVariable>) -> Seq<ResolvedObjectElement>
    decreases elems.len(),
{
    if elems.len() == 0 {
        Seq::empty()
    } else {
        inline_elements(elems.drop_last(), vars) + match elems.last() {
            ObjectElement::Field { name, value } =>
                seq![ResolvedObjectElement::Field { name, value: resolved_field_value(value, vars).unwrap() }],
            _ => Seq::empty(),
        }
    }
}

/// `o` is the resolution of the inline object `d`.
pub open spec fn is_inline_resolution(o: ResolvedObject, d: ObjectDeclaration, vars: StringMap<ResolvedVariable>) -> bool {
    &&& o.identifier == d.identifier
    &&& !o.is_global
    &&& o.resolved_elements@ == inline_elements(d.elements@, vars)
}

/// `e` reports the first field of `d` that names an unresolved variable.
pub open spec fn inline_error(e: ResolutionError, d: ObjectDeclaration, vars: StringMap<ResolvedVariable>) -> bool {
    exists|i: int| #![trigger d.elements@[i]]
        0 <= i < d.elements@.len()
        && (forall|j: int| 0 <= j < i ==> !unresolved_field(#[trigger] d.elements@[j], vars))
        && unresolved_field(d.elements@[i], vars)
        && (d.elements@[i] matches ObjectElement::Field { name: f, value: Value::Variable(v) }
            && e matches ResolutionError::UndefinedVariable { name: n, context: c }
            && n@ == v@
            && c@ == "Inline object '"@ + d.identifier@ + "' field '"@ + f@ + "'"@)
}

/// Resolve an inline object: each field value is taken as written, a
/// variable reference by the value of the resolved variable; elements other
/// than fields are left out. Inline objects are never global.
pub fn resolve_inline_object(object_decl: &ObjectDeclaration, context: &ResolutionContext) -> (res: Result<ResolvedObject, ResolutionError>)
    requires
        context.resolved_variables.wf(),
    ensures
        res is Ok <==> inline_resolvable(object_decl.elements@, context.resolved_variables),
        res matches Ok(o) ==> is_inline_resolution(o, *object_decl, context.resolved_variables),
        res matches Err(e) ==> inline_error(e, *object_decl, context.resolved_variables),
{
    let ghost vars = context.resolved_variables;
    let ghost elems = object_decl.elements@;
    let mut out: Vec<ResolvedObjectElement> = Vec::new();
    let mut i: usize = 0;
    while i < object_decl.elements.len()
        invariant
            i <= elems.len(),
            elems == object_decl.elements@,
            vars == context.resolved_variables,
            vars.wf(),
            forall|j: int| 0 <= j < i ==> !unresolved_field(#[trigger] elems[j], vars),
            out@ == inline_elements(elems.subrange(0, i as int), vars),
        decreases elems.len() - i,
    {
        proof {
            assert(elems.subrange(0, i + 1).drop_last() =~= elems.subrange(0, i as int));
        }
        match &object_decl.elements[i] {
            ObjectElement::Field { name, value } => {
                let resolved = match value {
                    Value::String(s) => ResolvedValue::String(s.clone()),
                    Value::Integer(n) => ResolvedValue::Integer(*n),
                    Value::Float(f) => ResolvedValue::Float(*f),
                    Value::Boolean(b) => ResolvedValue::Boolean(*b),
                    Value::Variable(var_name) => {
                        match context.resolved_variables.get(var_name.as_str()) {
                            Some(rv) => rv.value.clone(),
                            None => {
                                proof {
                                    assert(unresolved_field(elems[i as int], vars));
                                }
                                return Err(ResolutionError::UndefinedVariable {
                                    name: var_name.clone(),
                                    context: concat5("Inline object '", object_decl.identifier.as_str(), "' field '", name.as_str(), "'"),
                                });
                            },
                        }
                    },
                };
                let ghost prev = out@;
                out.push(ResolvedObjectElement::Field { name: name.clone(), value: resolved });
                proof {
                    assert(out@ =~= prev + seq![ResolvedObjectElement::Field {
                        name: *name, value: resolved_field_value(*value, vars).unwrap() }]);
                }
            },
            _ => {
                proof {
                    assert(out@ =~= out@ + Seq::<ResolvedObjectElement>::empty());
                }
            },
        }
        i = i + 1;
    }
    proof {
        assert(elems.subrange(0, elems.len() as int) =~= elems);
    }
    Ok(ResolvedObject { identifier: object_decl.identifier.clone(), resolved_elements: out, is_global: false })
}


/// Resolved inline elements are all fields.
proof fn lemma_inline_fields(elems: Seq<ObjectElement>, vars: StringMap<ResolvedVariable>)
    ensures
        forall|i: int| 0 <= i < inline_elements(elems, vars).len()
            ==> #[trigger] inline_elements(elems, vars)[i] is Field,
    decreases elems.len(),
{
    if elems.len() > 0 {
        lemma_inline_fields(elems.drop_last(), vars);
    }
}

/// A copy of a resolved inline object is a resolution of the same object.
proof fn lemma_inline_copy(c: ResolvedObject, o: ResolvedObject, d: ObjectDeclaration, vars: StringMap<ResolvedVariable>)
    requires
        same_object(c, o),
        is_inline_resolution(o, d, vars),
    ensures
        is_inline_resolution(c, d, vars),
{
    lemma_inline_fields(d.elements@, vars);
    assert forall|i: int| 0 <= i < c.resolved_elements@.len() implies
        c.resolved_elements@[i] == o.resolved_elements@[i] by {
        assert(same_element(c.resolved_elements@[i], o.resolved_elements@[i]));
        assert(o.resolved_elements@[i] is Field);
    }
    assert(c.resolved_elements@ =~= o.resolved_elements@);
}

/// The ids of the resolved SETs of a map.
pub open spec fn set_keys(m: StringMap<ResolvedSetOperation>) -> Set<Seq<char>> {
    Set::new(|k: Seq<char>| m.has(k))
}

/// The concrete objects that the operands of a resolved SET stand for, in
/// order: the global objects it names that are resolved, its inline
/// objects, and, for a nested SET reference to a resolved SET, the objects of
/// that SET, descending at most `fuel` levels.
pub open spec fn set_ref_objects(ops: Seq<ResolvedSetOperand>, sets: StringMap<ResolvedSetOperation>,
    globals: StringMap<ResolvedObject>, fuel: nat) -> Seq<ResolvedObject>
    decreases fuel, ops.len(),
{
    if ops.len() == 0 {
        Seq::empty()
    } else {
        set_ref_objects(ops.drop_last(), sets, globals, fuel) + match ops.last() {
            ResolvedSetOperand::ObjectRef(id) => if globals.has(id@) { seq![globals.at(id@)] } else { Seq::empty() },
            ResolvedSetOperand::InlineObject(o) => seq![o],
            ResolvedSetOperand::SetRef(m) => if fuel > 0 && sets.has(m@) {
                set_ref_objects(sets.at(m@).resolved_operands@, sets, globals, (fuel - 1) as nat)
            } else {
                Seq::empty()
            },
        }
    }
}

/// The concrete objects of the resolved SET `id` of the context: nested SET
/// references are followed through as many levels as there are resolved
/// SETs, which reaches every object when no SET reaches itself.
pub open spec fn set_objects(ctx: ResolutionContext, id: Seq<char>) -> Seq<ResolvedObject> {
    set_ref_objects(ctx.resolved_sets.at(id).resolved_operands@, ctx.resolved_sets, ctx.resolved_global_objects,
        ctx.resolved_sets.entries@.len() as nat)
}

/// An operand can be resolved, with `sets` the ids of the SETs resolved so far.
pub open spec fn operand_ok(op: SetOperand, ctx: ResolutionContext, sets: Set<Seq<char>>) -> bool {
    match op {
        SetOperand::ObjectRef(id) => ctx.resolved_global_objects.has(id@),
        SetOperand::SetRef(id) => sets.contains(id@),
        SetOperand::InlineObject(d) => inline_resolvable(d.elements@, ctx.resolved_variables),
    }
}

/// `ro` is the resolution of the operand `op`.
pub open spec fn resolved_operand_matches(ro: ResolvedSetOperand, op: SetOperand, vars: StringMap<ResolvedVariable>) -> bool {
    match op {
        SetOperand::ObjectRef(id) => ro == ResolvedSetOperand::ObjectRef(id),
        SetOperand::SetRef(id) => ro == ResolvedSetOperand::SetRef(id),
        SetOperand::InlineObject(d) => ro matches ResolvedSetOperand::InlineObject(o) && is_inline_resolution(o, d, vars),
    }
}

/// `objs` are the objects that the operand `op` stands for.
pub open spec fn operand_objects_match(objs: Seq<ResolvedObject>, op: SetOperand, ctx: ResolutionContext) -> bool {
    match op {
        SetOperand::ObjectRef(id) => same_objects(objs, seq![ctx.resolved_global_objects.at(id@)]),
        SetOperand::SetRef(id) => same_objects(objs, set_objects(ctx, id@)),
        SetOperand::InlineObject(d) => objs.len() == 1 && is_inline_resolution(objs[0], d, ctx.resolved_variables),
    }
}

/// The context message of an operand of the SET `set_id`.
pub open spec fn operand_context(set_id: Seq<char>) -> Seq<char> {
    "SET operand in set '"@ + set_id + "'"@
}

/// `e` reports why the operand `op` of the SET `set_id` cannot be resolved.
pub open spec fn operand_error(e: ResolutionError, op: SetOperand, set_id: Seq<char>, vars: StringMap<ResolvedVariable>) -> bool {
    match op {
        SetOperand::ObjectRef(id) => e matches ResolutionError::UndefinedGlobalObject { name: n, context: c }
            && n@ == id@ && c@ == operand_context(set_id),
        SetOperand::SetRef(id) => e matches ResolutionError::UndefinedSet { name: n, context: c }
            && n@ == id@ && c@ == operand_context(set_id),
        SetOperand::InlineObject(d) => inline_error(e, d, vars),
    }
}

/// Append copies of `src` to `out`.
fn append_objects(out: &mut Vec<ResolvedObject>, src: &Vec<ResolvedObject>)
    ensures
        final(out)@.len() == old(out)@.len() + src@.len(),
        forall|m: int| 0 <= m < old(out)@.len() ==> #[trigger] final(out)@[m] == old(out)@[m],
        forall|m: int| 0 <= m < src@.len() ==> same_object(#[trigger] final(out)@[old(out)@.len() + m], src@[m]),
{
    let ghost o0 = out@;
    let mut j: usize = 0;
    while j < src.len()
        invariant
            j <= src@.len(),
            out@.len() == o0.len() + j,
            forall|m: int| 0 <= m < o0.len() ==> #[trigger] out@[m] == o0[m],
            forall|m: int| 0 <= m < j ==> same_object(#[trigger] out@[o0.len() + m], src@[m]),
        decreases src@.len() - j,
    {
        out.push(src[j].clone());
        j = j + 1;
    }
}

/// Copy the concrete objects that the operands of a resolved SET stand for.
fn collect_set_ref_objects(ops: &Vec<ResolvedSetOperand>, sets: &StringMap<ResolvedSetOperation>,
    globals: &StringMap<ResolvedObject>, fuel: usize) -> (res: Vec<ResolvedObject>)
    requires
        globals.wf(),
        sets.wf(),
    ensures
        same_objects(res@, set_ref_objects(ops@, *sets, *globals, fuel as nat)),
    decreases fuel,
{
    let mut out: Vec<ResolvedObject> = Vec::new();
    let mut i: usize = 0;
    while i < ops.len()
        invariant
            i <= ops@.len(),
            globals.wf(),
            sets.wf(),
            same_objects(out@, set_ref_objects(ops@.subrange(0, i as int), *sets, *globals, fuel as nat)),
        decreases ops@.len() - i,
    {
        proof {
            assert(ops@.subrange(0, i + 1).drop_last() =~= ops@.subrange(0, i as int));
        }
        let ghost prev = out@;
        let ghost spec_prev = set_ref_objects(ops@.subrange(0, i as int), *sets, *globals, fuel as nat);
        match &ops[i] {
            ResolvedSetOperand::ObjectRef(obj_id) => {
                match globals.get(obj_id.as_str()) {
                    Some(o) => {
                        out.push(o.clone());
                        proof {
                            assert forall|m: int| 0 <= m < out@.len() implies
                                same_object(#[trigger] out@[m], (spec_prev + seq![globals.at(obj_id@)])[m]) by {
                                if m < prev.len() {
                                    assert(out@[m] == prev[m]);
                                }
                            }
                        }
                    },
                    None => {
                        proof {
                            assert(spec_prev + Seq::<ResolvedObject>::empty() =~= spec_prev);
                        }
                    },
                }
            },
            ResolvedSetOperand::InlineObject(o) => {
                out.push(o.clone());
                proof {
                    assert forall|m: int| 0 <= m < out@.len() implies
                        same_object(#[trigger] out@[m], (spec_prev + seq![*o])[m]) by {
                        if m < prev.len() {
                            assert(out@[m] == prev[m]);
                        }
                    }
                }
            },
            ResolvedSetOperand::SetRef(nested) => {
                let found = if fuel > 0 { sets.get(nested.as_str()) } else { None };
                match found {
                    Some(rs) => {
                        let inner = collect_set_ref_objects(&rs.resolved_operands, sets, globals, fuel - 1);
                        let ghost spec_inner = set_ref_objects(sets.at(nested@).resolved_operands@, *sets, *globals,
                            (fuel - 1) as nat);
                        append_objects(&mut out, &inner);
                        proof {
                            assert forall|m: int| 0 <= m < out@.len() implies
                                same_object(#[trigger] out@[m], (spec_prev + spec_inner)[m]) by {
                                if m < prev.len() {
                                    assert(out@[m] == prev[m]);
                                } else {
                                    let q = m - prev.len();
                                    assert(out@[prev.len() + q] == out@[m]);
                                    assert(same_object(inner@[q], spec_inner[q]));
                                    assert(same_object(out@[m], inner@[q]));
                                    lemma_same_object_trans(out@[m], inner@[q], spec_inner[q]);
                                }
                            }
                        }
                    },
                    None => {
                        proof {
                            assert(spec_prev + Seq::<ResolvedObject>::empty() =~= spec_prev);
                        }
                    },
                }
            },
        }
        i = i + 1;
    }
    proof {
        assert(ops@.subrange(0, ops@.len() as int) =~= ops@);
    }
    out
}

/// Carrying the same data is transitive.
proof fn lemma_same_object_trans(a: ResolvedObject, b: ResolvedObject, c: ResolvedObject)
    requires
        same_object(a, b),
        same_object(b, c),
    ensures
        same_object(a, c),
{
    assert forall|i: int| 0 <= i < a.resolved_elements@.len()
        implies same_element(#[trigger] a.resolved_elements@[i], c.resolved_elements@[i]) by {
        assert(same_element(a.resolved_elements@[i], b.resolved_elements@[i]));
        assert(same_element(b.resolved_elements@[i], c.resolved_elements@[i]));
        match a.resolved_elements@[i] {
            ResolvedObjectElement::Parameter { .. } => {},
            _ => {},
        }
    }
}

/// Resolve one operand of the SET `set_id` to its resolved form and the
/// objects it stands for.
fn resolve_set_operand(operand: &SetOperand, set_id: &str, operand_index: usize, context: &ResolutionContext)
    -> (res: Result<(ResolvedSetOperand, Vec<ResolvedObject>), ResolutionError>)
    requires
        context_wf(*context),
    ensures
        res is Ok <==> operand_ok(*operand, *context, set_keys(context.resolved_sets)),
        res matches Ok((ro, objs)) ==> resolved_operand_matches(ro, *operand, context.resolved_variables)
            && operand_objects_match(objs@, *operand, *context),
        res matches Err(e) ==> operand_error(e, *operand, set_id@, context.resolved_variables),
{
    match operand {
        SetOperand::ObjectRef(object_id) => {
            match context.resolved_global_objects.get(object_id.as_str()) {
                Some(o) => {
                    let c = o.clone();
                    let mut objs: Vec<ResolvedObject> = Vec::new();
                    objs.push(c);
                    proof {
                        assert(same_object(objs@[0], seq![context.resolved_global_objects.at(object_id@)][0]));
                    }
                    Ok((ResolvedSetOperand::ObjectRef(object_id.clone()), objs))
                },
                None => Err(ResolutionError::UndefinedGlobalObject {
                    name: object_id.clone(),
                    context: concat3("SET operand in set '", set_id, "'"),
                }),
            }
        },
        SetOperand::SetRef(referenced) => {
            match context.resolved_sets.get(referenced.as_str()) {
                Some(rs) => {
                    let objs = collect_set_ref_objects(&rs.resolved_operands, &context.resolved_sets,
                        &context.resolved_global_objects, context.resolved_sets.entries.len());
                    proof {
                        assert(set_keys(context.resolved_sets).contains(referenced@));
                    }
                    Ok((ResolvedSetOperand::SetRef(referenced.clone()), objs))
                },
                None => {
                    proof {
                        assert(!set_keys(context.resolved_sets).contains(referenced@));
                    }
                    Err(ResolutionError::UndefinedSet {
                        name: referenced.clone(),
                        context: concat3("SET operand in set '", set_id, "'"),
                    })
                },
            }
        },
        SetOperand::InlineObject(decl) => {
            match resolve_inline_object(decl, context) {
                Ok(o) => {
                    let c = o.clone();
                    proof {
                        lemma_inline_copy(c, o, *decl, context.resolved_variables);
                    }
                    let mut objs: Vec<ResolvedObject> = Vec::new();
                    objs.push(o);
                    Ok((ResolvedSetOperand::InlineObject(c), objs))
                },
                Err(e) => Err(e),
            }
        },
    }
}


/// The identifiers of a list of state declarations.
pub open spec fn state_ids(s: Seq<StateDeclaration>) -> Seq<Seq<char>> {
    s.map_values(|d: StateDeclaration| d.identifier@)
}

/// Whether some state of `states` has the identifier `id`.
fn has_state(states: &Vec<StateDeclaration>, id: &str) -> (res: bool)
    ensures
        res == state_ids(states@).contains(id@),
{
    let mut i: usize = 0;
    while i < states.len()
        invariant
            i <= states@.len(),
            forall|j: int| 0 <= j < i ==> states@[j].identifier@ != id@,
        decreases states@.len() - i,
    {
        if str_eq(states[i].identifier.as_str(), id) {
            proof {
                assert(state_ids(states@)[i as int] == id@);
            }
            return true;
        }
        i = i + 1;
    }
    proof {
        if state_ids(states@).contains(id@) {
            let j = choose|j: int| 0 <= j < state_ids(states@).len() && state_ids(states@)[j] == id@;
            assert(states@[j].identifier@ == id@);
        }
    }
    false
}

/// A SET can be resolved, with `sets` the ids of the SETs resolved so far:
/// its operand count suits its kind, every operand can be resolved, and
/// every state its filter names is a global state.
pub open spec fn set_resolvable(so: SetOperation, ctx: ResolutionContext, sets: Set<Seq<char>>) -> bool {
    &&& operand_count_ok(so.operation, so.operands@.len())
    &&& forall|i: int| 0 <= i < so.operands@.len() ==> operand_ok(#[trigger] so.operands@[i], ctx, sets)
    &&& forall|k: int| 0 <= k < filter_refs(so.filter).len()
        ==> state_ids(ctx.global_states@).contains(#[trigger] filter_refs(so.filter)[k])
}

/// `e` reports the first reason why the SET `so` cannot be resolved: its
/// operand count, else its first unresolvable operand, else the first
/// undefined state of its filter.
pub open spec fn set_error(e: ResolutionError, so: SetOperation, ctx: ResolutionContext, sets: Set<Seq<char>>) -> bool {
    ||| !operand_count_ok(so.operation, so.operands@.len())
        && (e matches ResolutionError::SetOperationFailed { set_id: s, reason: r }
            && s@ == so.set_id@ && r@ == operand_count_message(so.operation, so.operands@.len()))
    ||| operand_count_ok(so.operation, so.operands@.len())
        && exists|i: int| #![trigger so.operands@[i]]
            0 <= i < so.operands@.len()
            && (forall|j: int| 0 <= j < i ==> operand_ok(#[trigger] so.operands@[j], ctx, sets))
            && !operand_ok(so.operands@[i], ctx, sets)
            && operand_error(e, so.operands@[i], so.set_id@, ctx.resolved_variables)
    ||| operand_count_ok(so.operation, so.operands@.len())
        && (forall|i: int| 0 <= i < so.operands@.len() ==> operand_ok(#[trigger] so.operands@[i], ctx, sets))
        && exists|k: int| #![trigger filter_refs(so.filter)[k]]
            0 <= k < filter_refs(so.filter).len()
            && (forall|j: int| 0 <= j < k ==> state_ids(ctx.global_states@).contains(#[trigger] filter_refs(so.filter)[j]))
            && !state_ids(ctx.global_states@).contains(filter_refs(so.filter)[k])
            && (e matches ResolutionError::UndefinedGlobalState { name: n, context: c }
                && n@ == filter_refs(so.filter)[k]
                && c@ == "SET filter in set '"@ + so.set_id@ + "'"@)
}

/// `r` is the resolution of the SET `so`.
pub open spec fn resolved_set_matches(r: ResolvedSetOperation, so: SetOperation, vars: StringMap<ResolvedVariable>) -> bool {
    &&& r.set_id == so.set_id
    &&& r.operation == so.operation
    &&& r.resolved_operands@.len() == so.operands@.len()
    &&& forall|i: int| 0 <= i < so.operands@.len()
        ==> resolved_operand_matches(#[trigger] r.resolved_operands@[i], so.operands@[i], vars)
    &&& match so.filter {
        None => r.resolved_filter is None,
        Some(f) => r.resolved_filter matches Some(rf) && rf.action == f.action && rf.state_refs@ == f.state_refs@,
    }
}

/// Two resolved operands carry the same data.
pub open spec fn same_operand(a: ResolvedSetOperand, b: ResolvedSetOperand) -> bool {
    match (a, b) {
        (ResolvedSetOperand::ObjectRef(x), ResolvedSetOperand::ObjectRef(y)) => x == y,
        (ResolvedSetOperand::SetRef(x), ResolvedSetOperand::SetRef(y)) => x == y,
        (ResolvedSetOperand::InlineObject(o), ResolvedSetOperand::InlineObject(q)) => same_object(o, q),
        _ => false,
    }
}

/// Two resolved SETs carry the same data.
pub open spec fn same_resolved_set(a: ResolvedSetOperation, b: ResolvedSetOperation) -> bool {
    &&& a.set_id == b.set_id
    &&& a.operation == b.operation
    &&& a.resolved_operands@.len() == b.resolved_operands@.len()
    &&& forall|i: int| 0 <= i < a.resolved_operands@.len()
        ==> same_operand(#[trigger] a.resolved_operands@[i], b.resolved_operands@[i])
    &&& match (a.resolved_filter, b.resolved_filter) {
        (None, None) => true,
        (Some(x), Some(y)) => x.action == y.action && x.state_refs@ == y.state_refs@,
        _ => false,
    }
}

/// A copy of a resolved SET.
fn copy_resolved_set(r: &ResolvedSetOperation) -> (res: ResolvedSetOperation)
    ensures
        same_resolved_set(res, *r),
{
    let mut ops: Vec<ResolvedSetOperand> = Vec::new();
    let mut i: usize = 0;
    while i < r.resolved_operands.len()
        invariant
            i <= r.resolved_operands@.len(),
            ops@.len() == i,
            forall|j: int| 0 <= j < i ==> same_operand(#[trigger] ops@[j], r.resolved_operands@[j]),
        decreases r.resolved_operands@.len() - i,
    {
        let c = match &r.resolved_operands[i] {
            ResolvedSetOperand::ObjectRef(x) => ResolvedSetOperand::ObjectRef(x.clone()),
            ResolvedSetOperand::SetRef(x) => ResolvedSetOperand::SetRef(x.clone()),
            ResolvedSetOperand::InlineObject(o) => ResolvedSetOperand::InlineObject(o.clone()),
        };
        ops.push(c);
        i = i + 1;
    }
    let filter = match &r.resolved_filter {
        Some(f) => Some(f.clone()),
        None => None,
    };
    ResolvedSetOperation { set_id: r.set_id.clone(), operation: r.operation, resolved_operands: ops, resolved_filter: filter }
}

/// A copy of a resolution of a SET is a resolution of the same SET.
proof fn lemma_matches_copy(a: ResolvedSetOperation, b: ResolvedSetOperation, so: SetOperation, vars: StringMap<ResolvedVariable>)
    requires
        same_resolved_set(a, b),
        resolved_set_matches(b, so, vars),
    ensures
        resolved_set_matches(a, so, vars),
{
    assert forall|i: int| 0 <= i < so.operands@.len()
        implies resolved_operand_matches(#[trigger] a.resolved_operands@[i], so.operands@[i], vars) by {
        assert(same_operand(a.resolved_operands@[i], b.resolved_operands@[i]));
        assert(resolved_operand_matches(b.resolved_operands@[i], so.operands@[i], vars));
        match so.operands@[i] {
            SetOperand::InlineObject(d) => {
                let o = b.resolved_operands@[i]->InlineObject_0;
                let c = a.resolved_operands@[i]->InlineObject_0;
                lemma_inline_copy(c, o, d, vars);
            },
            _ => {},
        }
    }
}

/// Execute one SET operation: check its operand count, resolve its operands,
/// apply the operation to their objects, and check the states of its filter.
pub fn execute_set_operation(set_operation: &SetOperation, context: &mut ResolutionContext)
    -> (res: Result<ResolvedSetOperation, ResolutionError>)
    requires
        context_wf(*old(context)),
    ensures
        context_wf(*final(context)),
        res is Ok <==> set_resolvable(*set_operation, *old(context), set_keys(old(context).resolved_sets)),
        res matches Ok(r) ==> {
            &&& resolved_set_matches(r, *set_operation, old(context).resolved_variables)
            &&& *final(context) == with_sets(*old(context), final(context).resolved_sets)
            &&& final(context).resolved_sets.wf()
            &&& forall|x: Seq<char>| final(context).resolved_sets.has(x)
                <==> (old(context).resolved_sets.has(x) || x == set_operation.set_id@)
            &&& same_resolved_set(final(context).resolved_sets.at(set_operation.set_id@), r)
            &&& resolved_set_matches(final(context).resolved_sets.at(set_operation.set_id@), *set_operation,
                old(context).resolved_variables)
            &&& forall|x: Seq<char>| old(context).resolved_sets.has(x) && x != set_operation.set_id@
                ==> final(context).resolved_sets.at(x) == old(context).resolved_sets.at(x)
        },
        res matches Err(e) ==> *final(context) == *old(context)
            && set_error(e, *set_operation, *old(context), set_keys(old(context).resolved_sets)),
{
    let ctx: &ResolutionContext = &*context;
    let ghost sets = set_keys(ctx.resolved_sets);
    let ghost so = *set_operation;
    match set_operation.operation.validate_operand_count(set_operation.operands.len()) {
        Err(reason) => {
            return Err(ResolutionError::SetOperationFailed { set_id: set_operation.set_id.clone(), reason });
        },
        Ok(()) => {},
    }
    let mut resolved_operands: Vec<ResolvedSetOperand> = Vec::new();
    let mut lists: Vec<Vec<ResolvedObject>> = Vec::new();
    let mut i: usize = 0;
    while i < set_operation.operands.len()
        invariant
            i <= so.operands@.len(),
            so == *set_operation,
            *ctx == *old(context),
            context_wf(*ctx),
            sets == set_keys(ctx.resolved_sets),
            operand_count_ok(so.operation, so.operands@.len()),
            resolved_operands@.len() == i,
            lists@.len() == i,
            forall|j: int| 0 <= j < i ==> operand_ok(#[trigger] so.operands@[j], *ctx, sets),
            forall|j: int| 0 <= j < i ==> resolved_operand_matches(#[trigger] resolved_operands@[j], so.operands@[j], ctx.resolved_variables),
        decreases so.operands@.len() - i,
    {
        match resolve_set_operand(&set_operation.operands[i], set_operation.set_id.as_str(), i, ctx) {
            Ok((ro, objs)) => {
                resolved_operands.push(ro);
                lists.push(objs);
            },
            Err(e) => {
                proof {
                    assert(!operand_ok(so.operands@[i as int], *ctx, sets));
                    assert(set_error(e, so, *ctx, sets));
                }
                return Err(e);
            },
        }
        i = i + 1;
    }
    proof {
        assert(lists@.len() == so.operands@.len());
    }
    let applied = match set_operation.operation {
        SetOperationType::Union => execute_union(lists.as_slice(), set_operation.set_id.as_str()),
        SetOperationType::Intersection => execute_intersection(lists.as_slice(), set_operation.set_id.as_str()),
        SetOperationType::Complement => execute_complement(lists.as_slice(), set_operation.set_id.as_str()),
    };
    match applied {
        Err(e) => {
            return Err(e);
        },
        Ok(_) => {},
    }
    let resolved_filter = match &set_operation.filter {
        Some(filter) => {
            let mut k: usize = 0;
            while k < filter.state_refs.len()
                invariant
                    k <= filter.state_refs@.len(),
                    so == *set_operation,
                    *ctx == *old(context),
                    context_wf(*ctx),
                    so.filter == Some(*filter),
                    sets == set_keys(ctx.resolved_sets),
                    operand_count_ok(so.operation, so.operands@.len()),
                    forall|j: int| 0 <= j < so.operands@.len() ==> operand_ok(#[trigger] so.operands@[j], *ctx, sets),
                    filter_refs(so.filter).len() == filter.state_refs@.len(),
                    forall|j: int| 0 <= j < k ==> state_ids(ctx.global_states@).contains(#[trigger] filter_refs(so.filter)[j]),
                decreases filter.state_refs@.len() - k,
            {
                let state_ref = &filter.state_refs[k];
                if !has_state(&ctx.global_states, state_ref.as_str()) {
                    proof {
                        assert(filter_refs(so.filter)[k as int] == state_ref@);
                    }
                    return Err(ResolutionError::UndefinedGlobalState {
                        name: state_ref.clone(),
                        context: concat3("SET filter in set '", set_operation.set_id.as_str(), "'"),
                    });
                }
                proof {
                    assert(filter_refs(so.filter)[k as int] == state_ref@);
                }
                k = k + 1;
            }
            Some(ResolvedFilterSpec::new(filter.action, clone_strings(&filter.state_refs)))
        },
        None => None,
    };
    let resolved = ResolvedSetOperation {
        set_id: set_operation.set_id.clone(),
        operation: set_operation.operation,
        resolved_operands,
        resolved_filter,
    };
    let stored = copy_resolved_set(&resolved);
    proof {
        assert(resolved_set_matches(resolved, so, old(context).resolved_variables));
        lemma_matches_copy(stored, resolved, so, old(context).resolved_variables);
    }
    context.resolved_sets.insert(set_operation.set_id.clone(), stored);
    Ok(resolved)
}


/// The context `c` with its resolved SETs replaced by `m`.
pub open spec fn with_sets(c: ResolutionContext, m: StringMap<ResolvedSetOperation>) -> ResolutionContext {
    ResolutionContext { resolved_sets: m, ..c }
}

/// The ids of the SETs available to the `i`-th of `ops`: those in `start`
/// and those of the SETs before it.
pub open spec fn sets_before(start: Set<Seq<char>>, ops: Seq<SetOperation>, i: int) -> Set<Seq<char>> {
    start.union(Set::new(|k: Seq<char>| exists|j: int| 0 <= j < i && #[trigger] ops[j].set_id@ == k))
}

/// Whether a SET can be resolved and how it fails depend on the context only
/// through its resolved objects, its resolved variables and its global states.
pub proof fn lemma_set_frame(so: SetOperation, c1: ResolutionContext, c2: ResolutionContext, sets: Set<Seq<char>>)
    requires
        c1.resolved_global_objects == c2.resolved_global_objects,
        c1.resolved_variables == c2.resolved_variables,
        c1.global_states == c2.global_states,
    ensures
        set_resolvable(so, c1, sets) == set_resolvable(so, c2, sets),
        forall|e: ResolutionError| set_error(e, so, c1, sets) == #[trigger] set_error(e, so, c2, sets),
{
    assert forall|i: int| 0 <= i < so.operands@.len() implies
        operand_ok(so.operands@[i], c1, sets) == operand_ok(so.operands@[i], c2, sets) by {}
}

/// Execute every SET operation in definition order; each resolved SET is
/// stored under its id, where later SETs can reference it.
pub fn resolve_set_operations(context: &mut ResolutionContext) -> (res: Result<(), ResolutionError>)
    requires
        context_wf(*old(context)),
    ensures
        context_wf(*final(context)),
        *final(context) == with_sets(*old(context), final(context).resolved_sets),
        res is Ok <==> forall|i: int| 0 <= i < old(context).set_operations@.len() ==>
            set_resolvable(#[trigger] old(context).set_operations@[i], *old(context),
                sets_before(set_keys(old(context).resolved_sets), old(context).set_operations@, i)),
        res is Ok ==> set_keys(final(context).resolved_sets) == sets_before(set_keys(old(context).resolved_sets),
            old(context).set_operations@, old(context).set_operations@.len() as int),
        res is Ok ==> forall|i: int| 0 <= i < old(context).set_operations@.len()
            && (forall|j: int| i < j < old(context).set_operations@.len()
                ==> old(context).set_operations@[j].set_id@ != old(context).set_operations@[i].set_id@)
            ==> resolved_set_matches(final(context).resolved_sets.at(#[trigger] old(context).set_operations@[i].set_id@),
                old(context).set_operations@[i], old(context).resolved_variables),
        res is Ok ==> forall|k: Seq<char>| old(context).resolved_sets.has(k)
            && !(exists|j: int| 0 <= j < old(context).set_operations@.len() && #[trigger] old(context).set_operations@[j].set_id@ == k)
            ==> final(context).resolved_sets.at(k) == old(context).resolved_sets.at(k),
        res matches Err(e) ==> exists|i: int| 0 <= i < old(context).set_operations@.len()
            && (forall|j: int| 0 <= j < i ==> set_resolvable(#[trigger] old(context).set_operations@[j], *old(context),
                sets_before(set_keys(old(context).resolved_sets), old(context).set_operations@, j)))
            && set_error(e, #[trigger] old(context).set_operations@[i], *old(context),
                sets_before(set_keys(old(context).resolved_sets), old(context).set_operations@, i))
            && set_keys(final(context).resolved_sets) == sets_before(set_keys(old(context).resolved_sets),
                old(context).set_operations@, i)
            && (forall|j: int| 0 <= j < i
                && (forall|m: int| j < m < i ==> old(context).set_operations@[m].set_id@ != old(context).set_operations@[j].set_id@)
                ==> resolved_set_matches(final(context).resolved_sets.at(#[trigger] old(context).set_operations@[j].set_id@),
                    old(context).set_operations@[j], old(context).resolved_variables))
            && (forall|k: Seq<char>| old(context).resolved_sets.has(k)
                && !(exists|j: int| 0 <= j < i && #[trigger] old(context).set_operations@[j].set_id@ == k)
                ==> final(context).resolved_sets.at(k) == old(context).resolved_sets.at(k)),
{
    let ghost c0 = *old(context);
    let ghost ops = c0.set_operations@;
    let ghost start = set_keys(c0.resolved_sets);
    let mut set_operations: Vec<SetOperation> = Vec::new();
    std::mem::swap(&mut set_operations, &mut context.set_operations);
    let mut i: usize = 0;
    proof {
        assert(sets_before(start, ops, 0) =~= start);
        assert(set_keys(context.resolved_sets) =~= start);
    }
    while i < set_operations.len()
        invariant
            i <= ops.len(),
            c0 == *old(context),
            ops == c0.set_operations@,
            start == set_keys(c0.resolved_sets),
            set_operations@ == ops,
            set_operations == c0.set_operations,
            context_wf(*context),
            *context == (ResolutionContext { resolved_sets: context.resolved_sets, set_operations: context.set_operations, ..c0 }),
            set_keys(context.resolved_sets) == sets_before(start, ops, i as int),
            forall|j: int| 0 <= j < i ==> set_resolvable(#[trigger] ops[j], c0, sets_before(start, ops, j)),
            forall|j: int| 0 <= j < i && (forall|m: int| j < m < i ==> ops[m].set_id@ != ops[j].set_id@)
                ==> resolved_set_matches(context.resolved_sets.at(#[trigger] ops[j].set_id@), ops[j], c0.resolved_variables),
            forall|k: Seq<char>| c0.resolved_sets.has(k)
                && !(exists|j: int| 0 <= j < i && #[trigger] ops[j].set_id@ == k)
                ==> context.resolved_sets.at(k) == c0.resolved_sets.at(k),
        decreases ops.len() - i,
    {
        let ghost before = *context;
        let ghost before_sets = context.resolved_sets;
        let r = execute_set_operation(&set_operations[i], context);
        match r {
            Ok(resolved) => {
                proof {
                    lemma_set_frame(ops[i as int], before, c0, set_keys(before.resolved_sets));
                }
                proof {
                    let id = ops[i as int].set_id@;
                    assert(set_keys(context.resolved_sets) =~= sets_before(start, ops, i + 1)) by {
                        assert forall|k: Seq<char>| set_keys(context.resolved_sets).contains(k)
                            <==> sets_before(start, ops, i + 1).contains(k) by {
                            assert(set_keys(before_sets) == sets_before(start, ops, i as int));
                            assert(set_keys(before_sets).contains(k) == before_sets.has(k));
                            assert(set_keys(context.resolved_sets).contains(k) == context.resolved_sets.has(k));
                            if k == id {
                                assert(ops[i as int].set_id@ == k);
                                assert(sets_before(start, ops, i + 1).contains(k));
                            } else if before_sets.has(k) {
                                assert(sets_before(start, ops, i as int).contains(k));
                                if !start.contains(k) {
                                    let j = choose|j: int| 0 <= j < i && #[trigger] ops[j].set_id@ == k;
                                    assert(0 <= j < i + 1 && ops[j].set_id@ == k);
                                }
                                assert(sets_before(start, ops, i + 1).contains(k));
                            } else {
                                assert(!sets_before(start, ops, i as int).contains(k));
                                assert(!start.contains(k));
                                if sets_before(start, ops, i + 1).contains(k) {
                                    let j = choose|j: int| 0 <= j < i + 1 && #[trigger] ops[j].set_id@ == k;
                                    if j < i {
                                        assert(sets_before(start, ops, i as int).contains(k));
                                    }
                                }
                            }
                        }
                    }
                    assert forall|j: int| 0 <= j < i + 1 && (forall|m: int| j < m < i + 1 ==> ops[m].set_id@ != ops[j].set_id@)
                        implies resolved_set_matches(context.resolved_sets.at(#[trigger] ops[j].set_id@), ops[j], c0.resolved_variables) by {
                        if j < i {
                            assert(ops[i as int].set_id@ != ops[j].set_id@);
                            assert(before_sets.has(ops[j].set_id@)) by {
                                assert(sets_before(start, ops, i as int).contains(ops[j].set_id@));
                            }
                        }
                    }
                    assert forall|k: Seq<char>| c0.resolved_sets.has(k)
                        && !(exists|j: int| 0 <= j < i + 1 && #[trigger] ops[j].set_id@ == k)
                        implies context.resolved_sets.at(k) == c0.resolved_sets.at(k) by {
                        assert(ops[i as int].set_id@ != k);
                        assert(start.contains(k));
                        assert(sets_before(start, ops, i as int).contains(k));
                        assert(set_keys(before_sets).contains(k));
                        assert(before_sets.has(k));
                        assert(!(exists|j: int| 0 <= j < i && #[trigger] ops[j].set_id@ == k)) by {
                            if exists|j: int| 0 <= j < i && #[trigger] ops[j].set_id@ == k {
                                let j = choose|j: int| 0 <= j < i && #[trigger] ops[j].set_id@ == k;
                                assert(0 <= j < i + 1 && ops[j].set_id@ == k);
                            }
                        }
                    }
                }
            },
            Err(e) => {
                proof {
                    lemma_set_frame(ops[i as int], before, c0, set_keys(before.resolved_sets));
                }
                std::mem::swap(&mut set_operations, &mut context.set_operations);
                proof {
                    assert(context.resolved_sets == before.resolved_sets);
                    assert(set_error(e, ops[i as int], c0, sets_before(start, ops, i as int)));
                }
                return Err(e);
            },
        }
        i = i + 1;
    }
    std::mem::swap(&mut set_operations, &mut context.set_operations);
    Ok(())
}

/// An element is in a sequence with one more entry when it is in the
/// sequence or is that entry.
pub proof fn lemma_seq_push_contains<A>(s: Seq<A>, x: A, o: A)
    ensures
        s.push(x).contains(o) <==> (s.contains(o) || o == x),
{
    if s.contains(o) {
        let i = choose|i: int| 0 <= i < s.len() && s[i] == o;
        assert(s.push(x)[i] == o);
    }
    if o == x {
        assert(s.push(x)[s.len() as int] == o);
    }
    if s.push(x).contains(o) {
        let i = choose|i: int| 0 <= i < s.push(x).len() && s.push(x)[i] == o;
        if i < s.len() {
            assert(s[i] == o);
        }
    }
}

/// The identifiers of a list with one more object.
proof fn lemma_ids_push(s: Seq<ResolvedObject>, x: ResolvedObject)
    ensures
        object_ids(s.push(x)) == object_ids(s).push(x.identifier@),
{
    assert(object_ids(s.push(x)) =~= object_ids(s).push(x.identifier@));
}

/// A union holds each identifier once.
pub proof fn lemma_union_distinct(s: Seq<ResolvedObject>)
    ensures
        object_ids(first_by_id(s)).no_duplicates(),
    decreases s.len(),
{
    if s.len() > 0 {
        let p = first_by_id(s.drop_last());
        lemma_union_distinct(s.drop_last());
        if !object_ids(p).contains(s.last().identifier@) {
            lemma_ids_push(p, s.last());
            let ids = object_ids(p).push(s.last().identifier@);
            assert forall|i: int, j: int| 0 <= i < ids.len() && 0 <= j < ids.len() && i != j implies ids[i] != ids[j] by {
                if i < object_ids(p).len() && j < object_ids(p).len() {
                } else if i == object_ids(p).len() {
                    assert(object_ids(p)[j] == ids[j]);
                } else {
                    assert(object_ids(p)[i] == ids[i]);
                }
            }
        }
    }
}

/// A union holds exactly the identifiers of its operands.
pub proof fn lemma_union_ids(s: Seq<ResolvedObject>, id: Seq<char>)
    ensures
        object_ids(first_by_id(s)).contains(id) <==> object_ids(s).contains(id),
    decreases s.len(),
{
    if s.len() > 0 {
        let pre = s.drop_last();
        let p = first_by_id(pre);
        lemma_union_ids(pre, id);
        assert(s =~= pre.push(s.last()));
        lemma_ids_push(pre, s.last());
        lemma_seq_push_contains(object_ids(pre), s.last().identifier@, id);
        if !object_ids(p).contains(s.last().identifier@) {
            lemma_ids_push(p, s.last());
            lemma_seq_push_contains(object_ids(p), s.last().identifier@, id);
        } else {
            lemma_union_ids(pre, s.last().identifier@);
        }
    }
}

/// An intersection keeps the objects of its first operand whose identifier
/// every other operand has.
pub proof fn lemma_intersection_members(s: Seq<ResolvedObject>, others: Seq<Vec<ResolvedObject>>, o: ResolvedObject)
    ensures
        kept_in_all(s, others).contains(o) <==> (s.contains(o) && id_in_all(o.identifier@, others)),
    decreases s.len(),
{
    if s.len() > 0 {
        let pre = s.drop_last();
        lemma_intersection_members(pre, others, o);
        assert(s =~= pre.push(s.last()));
        lemma_seq_push_contains(pre, s.last(), o);
        if id_in_all(s.last().identifier@, others) {
            lemma_seq_push_contains(kept_in_all(pre, others), s.last(), o);
        }
    }
}

/// A complement keeps the objects of its first operand whose identifier the
/// second lacks.
pub proof fn lemma_complement_members(s: Seq<ResolvedObject>, other: Seq<ResolvedObject>, o: ResolvedObject)
    ensures
        kept_outside(s, other).contains(o) <==> (s.contains(o) && !object_ids(other).contains(o.identifier@)),
    decreases s.len(),
{
    if s.len() > 0 {
        let pre = s.drop_last();
        lemma_complement_members(pre, other, o);
        assert(s =~= pre.push(s.last()));
        lemma_seq_push_contains(pre, s.last(), o);
        if !object_ids(other).contains(s.last().identifier@) {
            lemma_seq_push_contains(kept_outside(pre, other), s.last(), o);
        }
    }
}

} // verus!
