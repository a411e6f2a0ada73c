//! Expansion of SET references: a criterion that reaches a SET through its
//! local object or through a global object gets the objects of that SET as
//! object references. SETs that reference each other in a cycle are refused.

use vstd::prelude::*;
use crate::strings::{str_eq, concat3};
use crate::string_map::StringMap;
use crate::types::set::{ResolvedSetOperand, ResolvedSetOperation, SetOperationType};
use crate::types::filter::clone_strings;
use crate::types::object::{ObjectRef, ObjectDeclaration, ObjectElement, ResolvedObject, ResolvedObjectElement};
use crate::types::criterion::CriterionDeclaration;
use crate::types::criteria::{CriteriaTree, CriteriaRoot, tree_criteria, forest_criteria};
use crate::types::common::LogicalOp;
use crate::types::resolution_context::{ResolutionContext, context_wf};
use crate::resolution::error::ResolutionError;
use crate::resolution::dag::{views, position_in, lemma_distinct_subseq};
use crate::resolution::cycles::{closed_under, acyclic_within, relation_has_cycle, lemma_empty_finished,
    lemma_extend_finished, lemma_union_finished, lemma_no_cycle, lemma_lasso, finished, lemma_prefix_grows};

verus! {

/// The SET that an operand references, if it is a SET reference.
pub open spec fn operand_set_ref(op: ResolvedSetOperand) -> Option<Seq<char>> {
    match op {
        ResolvedSetOperand::SetRef(n) => Some(n@),
        _ => None,
    }
}

/// The resolved SET `a` has an operand that references the resolved SET `b`.
pub open spec fn set_refers(sets: StringMap<ResolvedSetOperation>, a: Seq<char>, b: Seq<char>) -> bool {
    &&& sets.has(a)
    &&& sets.has(b)
    &&& exists|i: int| 0 <= i < sets.at(a).resolved_operands@.len()
        && operand_set_ref(#[trigger] sets.at(a).resolved_operands@[i]) == Some(b)
}

/// The reference relation between resolved SETs.
pub open spec fn set_graph(sets: StringMap<ResolvedSetOperation>) -> spec_fn(Seq<char>, Seq<char>) -> bool {
    |a: Seq<char>, b: Seq<char>| set_refers(sets, a, b)
}

/// Each SET of the path references the next one.
pub open spec fn set_chain(sets: StringMap<ResolvedSetOperation>, p: Seq<Seq<char>>) -> bool {
    forall|i: int| 0 <= i < p.len() - 1 ==> set_refers(sets, #[trigger] p[i], p[i + 1])
}

/// `c` is a chain of SET references whose last SET occurs earlier in it.
pub open spec fn is_set_lasso(sets: StringMap<ResolvedSetOperation>, c: Seq<Seq<char>>) -> bool {
    &&& set_chain(sets, c)
    &&& exists|k: int| 0 <= k < c.len() - 1 && c[k] == c.last()
}

/// Depth-first search from `set_id` for a cycle of SET references. `path`
/// holds the SETs of the current search path; `visited` every SET reached.
fn check_circular_set_ref(
    set_id: &str,
    resolved_set: &ResolvedSetOperation,
    resolved_sets: &StringMap<ResolvedSetOperation>,
    visited: &mut Vec<String>,
    path: &mut Vec<String>,
) -> (res: Result<(), Vec<String>>)
    requires
        resolved_sets.wf(),
        resolved_sets.has(set_id@),
        *resolved_set == resolved_sets.at(set_id@),
        views(old(visited)@).no_duplicates(),
        forall|i: int| 0 <= i < old(visited)@.len() ==> resolved_sets.has(#[trigger] views(old(visited)@)[i]),
        forall|i: int| 0 <= i < old(path)@.len() ==> views(old(visited)@).contains(#[trigger] views(old(path)@)[i]),
        set_chain(*resolved_sets, views(old(path)@)),
        old(path)@.len() > 0 ==> set_refers(*resolved_sets, views(old(path)@).last(), set_id@),
        closed_under(set_graph(*resolved_sets), finished(views(old(visited)@), views(old(path)@))),
        acyclic_within(set_graph(*resolved_sets), finished(views(old(visited)@), views(old(path)@))),
    ensures
        match res {
            Ok(()) => {
                &&& views(final(path)@) == views(old(path)@)
                &&& views(final(visited)@).no_duplicates()
                &&& forall|i: int| 0 <= i < final(visited)@.len() ==> resolved_sets.has(#[trigger] views(final(visited)@)[i])
                &&& old(visited)@.len() <= final(visited)@.len()
                &&& views(final(visited)@).subrange(0, old(visited)@.len() as int) == views(old(visited)@)
                &&& views(final(visited)@).contains(set_id@)
                &&& !views(old(path)@).contains(set_id@)
                &&& closed_under(set_graph(*resolved_sets), finished(views(final(visited)@), views(final(path)@)))
                &&& acyclic_within(set_graph(*resolved_sets), finished(views(final(visited)@), views(final(path)@)))
            },
            Err(c) => is_set_lasso(*resolved_sets, views(c@)),
        },
    decreases resolved_sets.spec_keys().len() - old(visited)@.len(),
{
    let ghost sets = *resolved_sets;
    let ghost succ = set_graph(sets);
    let ghost p0 = views(path@);
    let ghost v0 = views(visited@);
    if let Some(pos) = position_in(path, set_id) {
        let mut cycle = clone_strings(path);
        cycle.push(String::from_str(set_id));
        proof {
            let c = views(cycle@);
            assert(c =~= p0.push(set_id@));
            assert forall|i: int| 0 <= i < c.len() - 1 implies set_refers(sets, #[trigger] c[i], c[i + 1]) by {
                if i < c.len() - 2 {
                    assert(c[i] == p0[i] && c[i + 1] == p0[i + 1]);
                } else {
                    assert(c[i] == p0.last());
                }
            }
            assert(c[pos as int] == p0[pos as int]);
        }
        return Err(cycle);
    }
    if let Some(vpos) = position_in(visited, set_id) {
        proof {
            assert(v0[vpos as int] == set_id@);
            assert(finished(v0, p0).contains(set_id@));
        }
        return Ok(());
    }
    proof {
        lemma_distinct_subseq(v0, sets.spec_keys());
        assert(sets.spec_keys().contains(set_id@));
        if v0.len() == sets.spec_keys().len() {
            let j = choose|j: int| 0 <= j < sets.spec_keys().len() && sets.spec_keys()[j] == set_id@;
            assert(v0.contains(sets.spec_keys()[j]));
        }
    }
    visited.push(String::from_str(set_id));
    path.push(String::from_str(set_id));
    let ghost p1 = views(path@);
    proof {
        assert(views(visited@) =~= v0.push(set_id@));
        assert(p1 =~= p0.push(set_id@));
        assert(views(visited@).no_duplicates()) by {
            assert forall|a: int, b: int| 0 <= a < views(visited@).len() && 0 <= b < views(visited@).len() && a != b
                implies views(visited@)[a] != views(visited@)[b] by {
                if a == v0.len() { assert(v0.contains(views(visited@)[b])); }
                if b == v0.len() { assert(v0.contains(views(visited@)[a])); }
            }
        }
        assert(finished(views(visited@), p1) =~= finished(v0, p0)) by {
            assert forall|x: Seq<char>| finished(views(visited@), p1).contains(x) <==> finished(v0, p0).contains(x) by {
                if x == set_id@ {
                    assert(p1[p0.len() as int] == x);
                } else {
                    if views(visited@).contains(x) {
                        let j = choose|j: int| 0 <= j < views(visited@).len() && views(visited@)[j] == x;
                        assert(v0[j] == x);
                    }
                    if v0.contains(x) {
                        let j = choose|j: int| 0 <= j < v0.len() && v0[j] == x;
                        assert(views(visited@)[j] == x);
                    }
                    if p1.contains(x) {
                        let j = choose|j: int| 0 <= j < p1.len() && p1[j] == x;
                        assert(p0[j] == x);
                    }
                    if p0.contains(x) {
                        let j = choose|j: int| 0 <= j < p0.len() && p0[j] == x;
                        assert(p1[j] == x);
                    }
                }
            }
        }
        assert(set_chain(sets, p1)) by {
            assert forall|i: int| 0 <= i < p1.len() - 1 implies set_refers(sets, #[trigger] p1[i], p1[i + 1]) by {
                if i < p0.len() - 1 {
                    assert(p1[i] == p0[i] && p1[i + 1] == p0[i + 1]);
                } else {
                    assert(p1[i] == p0.last());
                }
            }
        }
        assert(views(visited@)[v0.len() as int] == set_id@);
        assert(views(visited@).subrange(0, v0.len() as int) =~= v0);
        assert forall|i: int| 0 <= i < path@.len() implies views(visited@).contains(#[trigger] views(path@)[i]) by {
            if i < p0.len() {
                assert(p1[i] == p0[i]);
                assert(v0.contains(p0[i]));
                let j = choose|j: int| 0 <= j < v0.len() && v0[j] == p0[i];
                assert(views(visited@)[j] == p0[i]);
            }
        }
    }
    let ops = &resolved_set.resolved_operands;
    let mut k: usize = 0;
    while k < ops.len()
        invariant
            k <= ops@.len(),
            sets == *resolved_sets,
            succ == set_graph(sets),
            sets.wf(),
            sets.has(set_id@),
            ops == &sets.at(set_id@).resolved_operands,
            views(path@) == p1,
            p1 == p0.push(set_id@),
            !p0.contains(set_id@),
            set_chain(sets, p1),
            views(visited@).no_duplicates(),
            forall|i: int| 0 <= i < visited@.len() ==> sets.has(#[trigger] views(visited@)[i]),
            forall|i: int| 0 <= i < path@.len() ==> views(visited@).contains(#[trigger] views(path@)[i]),
            v0.len() < visited@.len(),
            views(visited@).subrange(0, v0.len() as int) == v0,
            v0.len() == old(visited)@.len(),
            views(visited@).contains(set_id@),
            closed_under(succ, finished(views(visited@), p1)),
            acyclic_within(succ, finished(views(visited@), p1)),
            forall|j: int| 0 <= j < k && (#[trigger] operand_set_ref(ops@[j])) is Some && sets.has(operand_set_ref(ops@[j]).unwrap())
                ==> finished(views(visited@), p1).contains(operand_set_ref(ops@[j]).unwrap()),
        decreases ops@.len() - k,
    {
        if let ResolvedSetOperand::SetRef(nested_id) = &ops[k] {
            if let Some(nested) = resolved_sets.get(nested_id.as_str()) {
                let ghost vb = views(visited@);
                proof {
                    assert(operand_set_ref(ops@[k as int]) == Some(nested_id@));
                    assert(set_refers(sets, set_id@, nested_id@));
                    assert(p1.last() == set_id@);
                    lemma_distinct_subseq(vb, sets.spec_keys());
                }
                let r = check_circular_set_ref(nested_id.as_str(), nested, resolved_sets, visited, path);
                match r {
                    Err(c) => {
                        return Err(c);
                    },
                    Ok(()) => {},
                }
                proof {
                    let va = views(visited@);
                    lemma_prefix_grows(vb, va, p1);
                    lemma_prefix_grows(v0, vb, p1);
                    assert(va.subrange(0, v0.len() as int) =~= v0) by {
                        assert forall|j: int| 0 <= j < v0.len() implies va[j] == v0[j] by {
                            assert(va.subrange(0, vb.len() as int)[j] == vb[j]);
                            assert(vb.subrange(0, v0.len() as int)[j] == v0[j]);
                        }
                    }
                    assert(finished(va, p1).contains(nested_id@));
                    assert forall|i: int| 0 <= i < path@.len() implies va.contains(#[trigger] views(path@)[i]) by {
                        assert(vb.contains(views(path@)[i]));
                    }
                }
            }
        }
        k = k + 1;
    }
    let ghost vf = views(visited@);
    let ghost ff = finished(vf, p1);
    proof {
        assert forall|y: Seq<char>| #[trigger] succ(set_id@, y) implies ff.contains(y) by {
            assert(set_refers(sets, set_id@, y));
            let i = choose|i: int| 0 <= i < sets.at(set_id@).resolved_operands@.len()
                && operand_set_ref(#[trigger] sets.at(set_id@).resolved_operands@[i]) == Some(y);
            assert(operand_set_ref(ops@[i]) is Some);
        }
        lemma_extend_finished(succ, ff, set_id@);
    }
    let ghost pb = path@;
    path.pop();
    proof {
        assert(views(pb) == p1);
        assert(path@ =~= pb.drop_last());
        assert(views(path@) =~= p0) by {
            assert forall|j: int| 0 <= j < p0.len() implies views(path@)[j] == p0[j] by {
                assert(path@[j] == pb[j]);
                assert(views(pb)[j] == p1[j]);
            }
        }
        assert(finished(vf, p0) =~= ff.insert(set_id@)) by {
            assert forall|x: Seq<char>| finished(vf, p0).contains(x) <==> ff.insert(set_id@).contains(x) by {
                if p1.contains(x) && x != set_id@ {
                    let j = choose|j: int| 0 <= j < p1.len() && p1[j] == x;
                    assert(p0[j] == x);
                }
                if p0.contains(x) {
                    let j = choose|j: int| 0 <= j < p0.len() && p0[j] == x;
                    assert(p1[j] == x);
                }
                if x == set_id@ {
                    assert(p1[p0.len() as int] == x);
                }
            }
        }
    }
    Ok(())
}

/// Checks that no resolved SET reaches itself through SET references.
pub fn validate_set_expansions(context: &ResolutionContext) -> (res: Result<(), ResolutionError>)
    requires
        context.resolved_sets.wf(),
    ensures
        res is Ok <==> !relation_has_cycle(set_graph(context.resolved_sets)),
        res matches Err(e) ==> (e matches ResolutionError::CircularDependency { cycle }
            && is_set_lasso(context.resolved_sets, views(cycle@))),
{
    let sets = &context.resolved_sets;
    let ghost succ = set_graph(*sets);
    let ghost mut done: Set<Seq<char>> = Set::empty();
    proof {
        lemma_empty_finished(succ);
    }
    let mut i: usize = 0;
    while i < sets.entries.len()
        invariant
            i <= sets.entries@.len(),
            *sets == context.resolved_sets,
            sets.wf(),
            succ == set_graph(*sets),
            closed_under(succ, done),
            acyclic_within(succ, done),
            forall|j: int| 0 <= j < i ==> done.contains(#[trigger] sets.entries@[j].0@),
        decreases sets.entries@.len() - i,
    {
        let mut visited: Vec<String> = Vec::new();
        let mut path: Vec<String> = Vec::new();
        proof {
            sets.lemma_key_at(i as int);
            assert(finished(views(visited@), views(path@)) =~= Set::<Seq<char>>::empty());
            lemma_empty_finished(succ);
        }
        let r = check_circular_set_ref(sets.entries[i].0.as_str(), &sets.entries[i].1, sets, &mut visited, &mut path);
        match r {
            Err(cycle) => {
                proof {
                    let c = views(cycle@);
                    let k = choose|k: int| 0 <= k < c.len() - 1 && c[k] == c.last();
                    assert forall|j: int| 0 <= j < c.len() - 1 implies succ(#[trigger] c[j], c[j + 1]) by {
                        assert(set_refers(*sets, c[j], c[j + 1]));
                    }
                    lemma_lasso(succ, c, k);
                    assert(relation_has_cycle(set_graph(context.resolved_sets)));
                }
                return Err(ResolutionError::CircularDependency { cycle });
            },
            Ok(()) => {
                proof {
                    let f = finished(views(visited@), views(path@));
                    assert(views(path@).len() == 0);
                    assert(f.contains(sets.entries@[i as int].0@));
                    lemma_union_finished(succ, done, f);
                    done = done.union(f);
                }
            },
        }
        i = i + 1;
    }
    proof {
        assert forall|x: Seq<char>, y: Seq<char>| #[trigger] succ(x, y) implies done.contains(x) by {
            assert(set_refers(*sets, x, y));
            let j = choose|j: int| 0 <= j < sets.spec_keys().len() && sets.spec_keys()[j] == x;
            assert(sets.entries@[j].0@ == x);
        }
        lemma_no_cycle(succ, done);
    }
    Ok(())
}


/// The object ids of a list of object references.
pub open spec fn ref_ids(refs: Seq<ObjectRef>) -> Seq<Seq<char>> {
    refs.map_values(|r: ObjectRef| r.object_id@)
}

/// The concatenation of lists of ids.
pub open spec fn flatten_ids(lists: Seq<Seq<Seq<char>>>) -> Seq<Seq<char>>
    decreases lists.len(),
{
    if lists.len() == 0 { Seq::empty() } else { flatten_ids(lists.drop_last()) + lists.last() }
}

/// `x` occurs in every list of `others`.
pub open spec fn in_every(x: Seq<char>, others: Seq<Seq<Seq<char>>>) -> bool {
    forall|j: int| 0 <= j < others.len() ==> #[trigger] others[j].contains(x)
}

/// The ids of `s` that occur in every list of `others`, in order.
pub open spec fn ids_in_all(s: Seq<Seq<char>>, others: Seq<Seq<Seq<char>>>) -> Seq<Seq<char>>
    decreases s.len(),
{
    if s.len() == 0 {
        Seq::empty()
    } else {
        ids_in_all(s.drop_last(), others) + if in_every(s.last(), others) { seq![s.last()] } else { Seq::empty() }
    }
}

/// The ids of `s` that do not occur in `other`, in order.
pub open spec fn ids_outside(s: Seq<Seq<char>>, other: Seq<Seq<char>>) -> Seq<Seq<char>>
    decreases s.len(),
{
    if s.len() == 0 {
        Seq::empty()
    } else {
        ids_outside(s.drop_last(), other) + if other.contains(s.last()) { Seq::empty() } else { seq![s.last()] }
    }
}

/// The members of a SET whose operands have the member lists `lists`: a
/// union has the members of every operand, each once; an intersection the
/// members of its first operand that every other operand has; a complement
/// the members of its first operand that its second does not have.
pub open spec fn combine_ids(op: SetOperationType, lists: Seq<Seq<Seq<char>>>) -> Seq<Seq<char>> {
    match op {
        SetOperationType::Union => dedup_ids(flatten_ids(lists)),
        SetOperationType::Intersection => if lists.len() == 0 {
            Seq::empty()
        } else {
            ids_in_all(lists[0], lists.drop_first())
        },
        SetOperationType::Complement => if lists.len() == 0 {
            Seq::empty()
        } else if lists.len() == 1 {
            lists[0]
        } else {
            ids_outside(lists[0], lists[1])
        },
    }
}

/// The member lists of a list of operands, one list per operand: an object
/// reference or an inline object has its id, a SET reference the members of
/// that SET, descending at most `fuel` levels. `Err` names the first
/// referenced SET that is not resolved.
pub open spec fn operand_id_lists(sets: StringMap<ResolvedSetOperation>, ops: Seq<ResolvedSetOperand>, fuel: nat)
    -> Result<Seq<Seq<Seq<char>>>, Seq<char>>
    decreases fuel, ops.len(),
{
    if ops.len() == 0 {
        Ok(Seq::empty())
    } else {
        match operand_id_lists(sets, ops.drop_last(), fuel) {
            Err(m) => Err(m),
            Ok(prefix) => match ops.last() {
                ResolvedSetOperand::ObjectRef(id) => Ok(prefix.push(seq![id@])),
                ResolvedSetOperand::InlineObject(o) => Ok(prefix.push(seq![o.identifier@])),
                ResolvedSetOperand::SetRef(n) => {
                    if !sets.has(n@) {
                        Err(n@)
                    } else if fuel == 0 {
                        Ok(prefix.push(Seq::empty()))
                    } else {
                        match operand_id_lists(sets, sets.at(n@).resolved_operands@, (fuel - 1) as nat) {
                            Err(m) => Err(m),
                            Ok(inner) => Ok(prefix.push(combine_ids(sets.at(n@).operation, inner))),
                        }
                    }
                },
            },
        }
    }
}

/// Once a prefix of the operands fails, the whole list fails the same way.
proof fn lemma_lists_err_extends(sets: StringMap<ResolvedSetOperation>, s: Seq<ResolvedSetOperand>, k: int, fuel: nat)
    requires
        0 <= k <= s.len(),
        operand_id_lists(sets, s.subrange(0, k), fuel) is Err,
    ensures
        operand_id_lists(sets, s, fuel) == operand_id_lists(sets, s.subrange(0, k), fuel),
    decreases s.len(),
{
    if k == s.len() {
        assert(s.subrange(0, k) =~= s);
    } else {
        assert(s.drop_last().subrange(0, k) =~= s.subrange(0, k));
        lemma_lists_err_extends(sets, s.drop_last(), k, fuel);
    }
}

/// The members of the SET `set_id` under its operation, as object ids:
/// `Err((m, true))` when `set_id` itself is not resolved, `Err((m, false))`
/// when a SET `m` that it reaches is not. Its filter is not applied here.
pub open spec fn set_ref_expansion(sets: StringMap<ResolvedSetOperation>, set_id: Seq<char>)
    -> Result<Seq<Seq<char>>, (Seq<char>, bool)>
{
    if !sets.has(set_id) {
        Err((set_id, true))
    } else {
        match operand_id_lists(sets, sets.at(set_id).resolved_operands@, (sets.spec_keys().len() - 1) as nat) {
            Ok(lists) => Ok(combine_ids(sets.at(set_id).operation, lists)),
            Err(m) => Err((m, false)),
        }
    }
}

/// `e` reports the failure `err` of a SET expansion for the criterion type `ctn`.
pub open spec fn expansion_error(e: ResolutionError, err: (Seq<char>, bool), ctn: Seq<char>) -> bool {
    e matches ResolutionError::UndefinedSet { name, context }
        && name@ == err.0
        && context@ == (if err.1 { "SET expansion in CTN '"@ + ctn + "'"@ } else { "Nested SET expansion for '"@ + err.0 + "'"@ })
}

/// The id lists of a list of string vectors.
pub open spec fn lists_views(v: Seq<Vec<String>>) -> Seq<Seq<Seq<char>>> {
    v.map_values(|l: Vec<String>| views(l@))
}

/// The members of a union: every id of every list, each once, in order.
fn union_ids(lists: &Vec<Vec<String>>) -> (res: Vec<String>)
    ensures
        views(res@) == dedup_ids(flatten_ids(lists_views(lists@))),
{
    let ghost ls = lists_views(lists@);
    let mut out: Vec<String> = Vec::new();
    let mut i: usize = 0;
    proof {
        assert(ls.subrange(0, 0) =~= Seq::<Seq<Seq<char>>>::empty());
        assert(views(out@) =~= Seq::<Seq<char>>::empty());
    }
    while i < lists.len()
        invariant
            i <= lists@.len(),
            ls == lists_views(lists@),
            views(out@) == dedup_ids(flatten_ids(ls.subrange(0, i as int))),
        decreases lists@.len() - i,
    {
        let l = &lists[i];
        let ghost base = flatten_ids(ls.subrange(0, i as int));
        proof {
            assert(ls[i as int] == views(l@));
            assert(base + views(l@).subrange(0, 0) =~= base);
        }
        let mut j: usize = 0;
        while j < l.len()
            invariant
                j <= l@.len(),
                views(out@) == dedup_ids(base + views(l@).subrange(0, j as int)),
            decreases l@.len() - j,
        {
            let ghost f = base + views(l@).subrange(0, j as int);
            let ghost ob = views(out@);
            proof {
                assert(base + views(l@).subrange(0, j + 1) =~= f.push(l@[j as int]@));
                assert(f.push(l@[j as int]@).drop_last() =~= f);
            }
            if position_in(&out, l[j].as_str()).is_none() {
                out.push(l[j].clone());
                proof {
                    assert(views(out@) =~= ob.push(l@[j as int]@));
                }
            }
            j = j + 1;
        }
        proof {
            assert(views(l@).subrange(0, l@.len() as int) =~= views(l@));
            assert(ls.subrange(0, i + 1).drop_last() =~= ls.subrange(0, i as int));
            assert(ls.subrange(0, i + 1).last() == ls[i as int]);
        }
        i = i + 1;
    }
    proof {
        assert(ls.subrange(0, lists@.len() as int) =~= ls);
    }
    out
}

/// Whether `x` occurs in every list from position `from` on.
fn in_lists_from(lists: &Vec<Vec<String>>, from: usize, x: &str) -> (res: bool)
    requires
        from <= lists@.len(),
    ensures
        res == (forall|m: int| from <= m < lists@.len() ==> #[trigger] views(lists@[m]@).contains(x@)),
{
    let mut k: usize = from;
    while k < lists.len()
        invariant
            from <= k <= lists@.len(),
            forall|m: int| from <= m < k ==> #[trigger] views(lists@[m]@).contains(x@),
        decreases lists@.len() - k,
    {
        if position_in(&lists[k], x).is_none() {
            return false;
        }
        k = k + 1;
    }
    true
}

/// The members of an intersection: the ids of the first list that every
/// other list has, in order.
fn intersection_ids(lists: &Vec<Vec<String>>) -> (res: Vec<String>)
    requires
        lists@.len() > 0,
    ensures
        views(res@) == ids_in_all(lists_views(lists@)[0], lists_views(lists@).drop_first()),
{
    let ghost ls = lists_views(lists@);
    let ghost others = ls.drop_first();
    let first = &lists[0];
    let mut out: Vec<String> = Vec::new();
    let mut j: usize = 0;
    proof {
        assert(ls[0] == views(first@));
        assert(views(first@).subrange(0, 0) =~= Seq::<Seq<char>>::empty());
        assert(views(out@) =~= Seq::<Seq<char>>::empty());
    }
    while j < first.len()
        invariant
            j <= first@.len(),
            lists@.len() > 0,
            ls == lists_views(lists@),
            others == ls.drop_first(),
            ls[0] == views(first@),
            views(out@) == ids_in_all(views(first@).subrange(0, j as int), others),
        decreases first@.len() - j,
    {
        let ghost ob = views(out@);
        let ghost x = first@[j as int]@;
        proof {
            assert(views(first@).subrange(0, j + 1).drop_last() =~= views(first@).subrange(0, j as int));
            assert(views(first@).subrange(0, j + 1).last() == x);
        }
        let all = in_lists_from(lists, 1, first[j].as_str());
        proof {
            assert(all == in_every(x, others)) by {
                if all {
                    assert forall|q: int| 0 <= q < others.len() implies #[trigger] others[q].contains(x) by {
                        assert(others[q] == ls[q + 1]);
                        assert(views(lists@[q + 1]@).contains(x));
                    }
                } else {
                    let m = choose|m: int| 1 <= m < lists@.len() && !#[trigger] views(lists@[m]@).contains(x);
                    assert(others[m - 1] == ls[m]);
                    assert(!others[m - 1].contains(x));
                }
            }
        }
        if all {
            out.push(first[j].clone());
            proof {
                assert(views(out@) =~= ob.push(x));
            }
        } else {
            proof {
                assert(ob + Seq::<Seq<char>>::empty() =~= ob);
            }
        }
        j = j + 1;
    }
    proof {
        assert(views(first@).subrange(0, first@.len() as int) =~= views(first@));
    }
    out
}

/// The members of a complement: the ids of `first` that `second` does not
/// have, in order.
fn complement_ids(first: &Vec<String>, second: &Vec<String>) -> (res: Vec<String>)
    ensures
        views(res@) == ids_outside(views(first@), views(second@)),
{
    let mut out: Vec<String> = Vec::new();
    let mut j: usize = 0;
    proof {
        assert(views(first@).subrange(0, 0) =~= Seq::<Seq<char>>::empty());
        assert(views(out@) =~= Seq::<Seq<char>>::empty());
    }
    while j < first.len()
        invariant
            j <= first@.len(),
            views(out@) == ids_outside(views(first@).subrange(0, j as int), views(second@)),
        decreases first@.len() - j,
    {
        let ghost ob = views(out@);
        let ghost x = first@[j as int]@;
        proof {
            assert(views(first@).subrange(0, j + 1).drop_last() =~= views(first@).subrange(0, j as int));
            assert(views(first@).subrange(0, j + 1).last() == x);
        }
        if position_in(second, first[j].as_str()).is_none() {
            out.push(first[j].clone());
            proof {
                assert(views(out@) =~= ob.push(x));
            }
        } else {
            proof {
                assert(ob + Seq::<Seq<char>>::empty() =~= ob);
            }
        }
        j = j + 1;
    }
    proof {
        assert(views(first@).subrange(0, first@.len() as int) =~= views(first@));
    }
    out
}

/// The members of a SET of kind `op` whose operands have the member lists `lists`.
fn combine_id_lists(op: SetOperationType, lists: &Vec<Vec<String>>) -> (res: Vec<String>)
    ensures
        views(res@) == combine_ids(op, lists_views(lists@)),
{
    match op {
        SetOperationType::Union => union_ids(lists),
        SetOperationType::Intersection => {
            if lists.len() == 0 {
                let v: Vec<String> = Vec::new();
                proof {
                    assert(views(v@) =~= Seq::<Seq<char>>::empty());
                }
                v
            } else {
                intersection_ids(lists)
            }
        },
        SetOperationType::Complement => {
            if lists.len() == 0 {
                let v: Vec<String> = Vec::new();
                proof {
                    assert(views(v@) =~= Seq::<Seq<char>>::empty());
                }
                v
            } else if lists.len() == 1 {
                let r = clone_strings(&lists[0]);
                proof {
                    assert(views(r@) =~= views(lists@[0]@));
                }
                r
            } else {
                complement_ids(&lists[0], &lists[1])
            }
        },
    }
}

/// The member lists of `operands`, one per operand.
/// `path` is the chain of SETs being expanded, the last one owning `operands`.
fn extract_objects_from_operands(
    operands: &Vec<ResolvedSetOperand>,
    resolved_sets: &StringMap<ResolvedSetOperation>,
    Ghost(path): Ghost<Seq<Seq<char>>>,
) -> (res: Result<Vec<Vec<String>>, ResolutionError>)
    requires
        resolved_sets.wf(),
        !relation_has_cycle(set_graph(*resolved_sets)),
        path.len() > 0,
        path.no_duplicates(),
        forall|i: int| 0 <= i < path.len() ==> resolved_sets.has(#[trigger] path[i]),
        set_chain(*resolved_sets, path),
        *operands == resolved_sets.at(path.last()).resolved_operands,
    ensures
        path.len() <= resolved_sets.spec_keys().len(),
        match operand_id_lists(*resolved_sets, operands@, (resolved_sets.spec_keys().len() - path.len()) as nat) {
            Ok(lists) => res matches Ok(v) && lists_views(v@) == lists,
            Err(m) => res matches Err(ResolutionError::UndefinedSet { name, context })
                && name@ == m && context@ == "Nested SET expansion for '"@ + m + "'"@,
        },
    decreases resolved_sets.spec_keys().len() - path.len(),
{
    let ghost sets = *resolved_sets;
    let ghost keys = sets.spec_keys();
    proof {
        assert forall|i: int| 0 <= i < path.len() implies keys.contains(#[trigger] path[i]) by {
            assert(sets.has(path[i]));
        }
        lemma_distinct_subseq(path, keys);
    }
    let ghost fuel = (keys.len() - path.len()) as nat;
    let mut output: Vec<Vec<String>> = Vec::new();
    let mut k: usize = 0;
    proof {
        assert(operands@.subrange(0, 0) =~= Seq::<ResolvedSetOperand>::empty());
        assert(lists_views(output@) =~= Seq::<Seq<Seq<char>>>::empty());
    }
    while k < operands.len()
        invariant
            k <= operands@.len(),
            sets == *resolved_sets,
            keys == sets.spec_keys(),
            sets.wf(),
            !relation_has_cycle(set_graph(sets)),
            path.len() > 0,
            path.no_duplicates(),
            path.len() <= keys.len(),
            fuel == (keys.len() - path.len()) as nat,
            forall|i: int| 0 <= i < path.len() ==> sets.has(#[trigger] path[i]),
            set_chain(sets, path),
            *operands == sets.at(path.last()).resolved_operands,
            operand_id_lists(sets, operands@.subrange(0, k as int), fuel) matches Ok(prefix)
                && lists_views(output@) == prefix,
        decreases operands@.len() - k,
    {
        let ghost sub = operands@.subrange(0, k as int);
        let ghost prefix = operand_id_lists(sets, sub, fuel)->Ok_0;
        let ghost ob = output@;
        proof {
            assert(operands@.subrange(0, k + 1).drop_last() =~= sub);
            assert(operands@.subrange(0, k + 1).last() == operands@[k as int]);
        }
        match &operands[k] {
            ResolvedSetOperand::ObjectRef(obj_id) => {
                let mut one: Vec<String> = Vec::new();
                one.push(obj_id.clone());
                output.push(one);
                proof {
                    assert(views(one@) =~= seq![obj_id@]);
                    assert(lists_views(output@) =~= lists_views(ob).push(seq![obj_id@]));
                }
            },
            ResolvedSetOperand::InlineObject(obj) => {
                let mut one: Vec<String> = Vec::new();
                one.push(obj.identifier.clone());
                output.push(one);
                proof {
                    assert(views(one@) =~= seq![obj.identifier@]);
                    assert(lists_views(output@) =~= lists_views(ob).push(seq![obj.identifier@]));
                }
            },
            ResolvedSetOperand::SetRef(nested_id) => {
                match resolved_sets.get(nested_id.as_str()) {
                    None => {
                        proof {
                            lemma_lists_err_extends(sets, operands@, k + 1, fuel);
                        }
                        return Err(ResolutionError::UndefinedSet {
                            name: nested_id.clone(),
                            context: concat3("Nested SET expansion for '", nested_id.as_str(), "'"),
                        });
                    },
                    Some(nested) => {
                        let ghost npath = path.push(nested_id@);
                        proof {
                            assert(set_refers(sets, path.last(), nested_id@)) by {
                                assert(operand_set_ref(sets.at(path.last()).resolved_operands@[k as int]) == Some(nested_id@));
                            }
                            if path.contains(nested_id@) {
                                let j = choose|j: int| 0 <= j < path.len() && path[j] == nested_id@;
                                assert forall|i: int| 0 <= i < npath.len() - 1 implies
                                    set_graph(sets)(#[trigger] npath[i], npath[i + 1]) by {
                                    if i < path.len() - 1 {
                                        assert(npath[i] == path[i] && npath[i + 1] == path[i + 1]);
                                    } else {
                                        assert(npath[i] == path.last());
                                    }
                                }
                                assert(npath[j] == npath.last());
                                lemma_lasso(set_graph(sets), npath, j);
                            }
                            assert(npath.no_duplicates()) by {
                                assert forall|a: int, b: int| 0 <= a < npath.len() && 0 <= b < npath.len() && a != b
                                    implies npath[a] != npath[b] by {
                                    if a == path.len() { assert(path.contains(npath[b])); }
                                    if b == path.len() { assert(path.contains(npath[a])); }
                                }
                            }
                            assert(set_chain(sets, npath)) by {
                                assert forall|i: int| 0 <= i < npath.len() - 1 implies
                                    set_refers(sets, #[trigger] npath[i], npath[i + 1]) by {
                                    if i < path.len() - 1 {
                                        assert(npath[i] == path[i] && npath[i + 1] == path[i + 1]);
                                    } else {
                                        assert(npath[i] == path.last());
                                    }
                                }
                            }
                            assert(npath.last() == nested_id@);
                            assert forall|i: int| 0 <= i < npath.len() implies keys.contains(#[trigger] npath[i]) by {
                                if i < path.len() {
                                    assert(npath[i] == path[i]);
                                    assert(sets.has(path[i]));
                                }
                            }
                            lemma_distinct_subseq(npath, keys);
                        }
                        let r = extract_objects_from_operands(&nested.resolved_operands, resolved_sets, Ghost(npath));
                        proof {
                            assert(fuel > 0);
                            assert((keys.len() - npath.len()) as nat == (fuel - 1) as nat);
                        }
                        match r {
                            Err(e) => {
                                proof {
                                    lemma_lists_err_extends(sets, operands@, k + 1, fuel);
                                }
                                return Err(e);
                            },
                            Ok(inner) => {
                                let members = combine_id_lists(nested.operation, &inner);
                                output.push(members);
                                proof {
                                    let il = operand_id_lists(sets, sets.at(nested_id@).resolved_operands@, (fuel - 1) as nat)->Ok_0;
                                    assert(lists_views(inner@) == il);
                                    assert(lists_views(output@) =~= lists_views(ob).push(views(members@)));
                                }
                            },
                        }
                    },
                }
            },
        }
        k = k + 1;
    }
    proof {
        assert(operands@.subrange(0, operands@.len() as int) =~= operands@);
    }
    Ok(output)
}

/// The object references that the SET `set_id` expands to: its members
/// under its union, intersection or complement, nested SETs included.
fn expand_set_ref_to_object_refs(
    set_id: &str,
    container_object_id: &str,
    criterion_type: &str,
    resolved_sets: &StringMap<ResolvedSetOperation>,
) -> (res: Result<Vec<ObjectRef>, ResolutionError>)
    requires
        resolved_sets.wf(),
        !relation_has_cycle(set_graph(*resolved_sets)),
    ensures
        match set_ref_expansion(*resolved_sets, set_id@) {
            Ok(ids) => res matches Ok(v) && ref_ids(v@) == ids,
            Err(x) => res matches Err(e) && expansion_error(e, x, criterion_type@),
        },
{
    match resolved_sets.get(set_id) {
        None => Err(ResolutionError::UndefinedSet {
            name: String::from_str(set_id),
            context: concat3("SET expansion in CTN '", criterion_type, "'"),
        }),
        Some(resolved_set) => {
            let ghost path = seq![set_id@];
            proof {
                assert(path.last() == set_id@);
                assert(path[0] == set_id@);
            }
            let r = extract_objects_from_operands(&resolved_set.resolved_operands, resolved_sets, Ghost(path));
            match r {
                Ok(lists) => {
                    let members = combine_id_lists(resolved_set.operation, &lists);
                    let mut object_refs: Vec<ObjectRef> = Vec::new();
                    let mut i: usize = 0;
                    while i < members.len()
                        invariant
                            i <= members@.len(),
                            ref_ids(object_refs@) == views(members@).subrange(0, i as int),
                        decreases members@.len() - i,
                    {
                        let ghost ob = object_refs@;
                        object_refs.push(ObjectRef::new(members[i].clone()));
                        proof {
                            assert(ref_ids(object_refs@) =~= ref_ids(ob).push(members@[i as int]@));
                            assert(views(members@).subrange(0, i + 1) =~= views(members@).subrange(0, i as int).push(members@[i as int]@));
                        }
                        i = i + 1;
                    }
                    proof {
                        assert(views(members@).subrange(0, members@.len() as int) =~= views(members@));
                    }
                    Ok(object_refs)
                },
                Err(e) => Err(e),
            }
        },
    }
}


/// The SET that a declared element references, if it is a SET reference.
pub open spec fn decl_set_ref(e: ObjectElement) -> Option<Seq<char>> {
    match e {
        ObjectElement::SetRef { set_id } => Some(set_id@),
        _ => None,
    }
}

/// The SET that a resolved element references, if it is a SET reference.
pub open spec fn resolved_set_ref(e: ResolvedObjectElement) -> Option<Seq<char>> {
    match e {
        ResolvedObjectElement::SetRef { set_id } => Some(set_id@),
        _ => None,
    }
}

/// The first present entry of a list of optional SET ids.
pub open spec fn first_set_ref(s: Seq<Option<Seq<char>>>) -> Option<Seq<char>>
    decreases s.len(),
{
    if s.len() == 0 {
        None
    } else {
        match first_set_ref(s.drop_last()) {
            Some(x) => Some(x),
            None => s.last(),
        }
    }
}

/// Once a prefix has a present entry, the whole list has the same first one.
proof fn lemma_first_set_ref_extends(s: Seq<Option<Seq<char>>>, k: int)
    requires
        0 <= k <= s.len(),
        first_set_ref(s.subrange(0, k)) is Some,
    ensures
        first_set_ref(s) == first_set_ref(s.subrange(0, k)),
    decreases s.len(),
{
    if k == s.len() {
        assert(s.subrange(0, k) =~= s);
    } else {
        assert(s.drop_last().subrange(0, k) =~= s.subrange(0, k));
        lemma_first_set_ref_extends(s.drop_last(), k);
    }
}

/// The SET referenced first among the elements of a declared object.
pub open spec fn object_set_ref(o: ObjectDeclaration) -> Option<Seq<char>> {
    first_set_ref(o.elements@.map_values(|e: ObjectElement| decl_set_ref(e)))
}

/// The SET referenced first among the elements of a resolved object.
pub open spec fn resolved_object_set_ref(o: ResolvedObject) -> Option<Seq<char>> {
    first_set_ref(o.resolved_elements@.map_values(|e: ResolvedObjectElement| resolved_set_ref(e)))
}

/// The SET that a declared object references, if any (its first SET reference).
pub fn extract_set_ref_from_declaration_object(object: &ObjectDeclaration) -> (res: Option<String>)
    ensures
        match res {
            Some(s) => object_set_ref(*object) == Some(s@),
            None => object_set_ref(*object) is None,
        },
{
    let ghost m = object.elements@.map_values(|e: ObjectElement| decl_set_ref(e));
    let mut i: usize = 0;
    while i < object.elements.len()
        invariant
            i <= object.elements@.len(),
            m == object.elements@.map_values(|e: ObjectElement| decl_set_ref(e)),
            first_set_ref(m.subrange(0, i as int)) is None,
        decreases object.elements@.len() - i,
    {
        proof {
            assert(m.subrange(0, i + 1).drop_last() =~= m.subrange(0, i as int));
            assert(m.subrange(0, i + 1).last() == decl_set_ref(object.elements@[i as int]));
        }
        if let ObjectElement::SetRef { set_id } = &object.elements[i] {
            proof {
                lemma_first_set_ref_extends(m, i + 1);
            }
            return Some(set_id.clone());
        }
        i = i + 1;
    }
    proof {
        assert(m.subrange(0, m.len() as int) =~= m);
    }
    None
}

/// The SET that a resolved object references, if any (its first SET reference).
fn extract_set_ref_from_resolved_object(object: &ResolvedObject) -> (res: Option<String>)
    ensures
        match res {
            Some(s) => resolved_object_set_ref(*object) == Some(s@),
            None => resolved_object_set_ref(*object) is None,
        },
{
    let ghost m = object.resolved_elements@.map_values(|e: ResolvedObjectElement| resolved_set_ref(e));
    let mut i: usize = 0;
    while i < object.resolved_elements.len()
        invariant
            i <= object.resolved_elements@.len(),
            m == object.resolved_elements@.map_values(|e: ResolvedObjectElement| resolved_set_ref(e)),
            first_set_ref(m.subrange(0, i as int)) is None,
        decreases object.resolved_elements@.len() - i,
    {
        proof {
            assert(m.subrange(0, i + 1).drop_last() =~= m.subrange(0, i as int));
            assert(m.subrange(0, i + 1).last() == resolved_set_ref(object.resolved_elements@[i as int]));
        }
        if let ResolvedObjectElement::SetRef { set_id } = &object.resolved_elements[i] {
            proof {
                lemma_first_set_ref_extends(m, i + 1);
            }
            return Some(set_id.clone());
        }
        i = i + 1;
    }
    proof {
        assert(m.subrange(0, m.len() as int) =~= m);
    }
    None
}

/// Whether a resolved object references a SET.
fn contains_set_ref_in_resolved_object(object: &ResolvedObject) -> (res: bool)
    ensures
        res == resolved_object_set_ref(*object) is Some,
{
    extract_set_ref_from_resolved_object(object).is_some()
}

/// The SET that the global object `id` references, if it is a resolved
/// global object that references one.
pub open spec fn container_set(globals: StringMap<ResolvedObject>, id: Seq<char>) -> Option<Seq<char>> {
    if globals.has(id) { resolved_object_set_ref(globals.at(id)) } else { None }
}

/// The ids of `ids` that do not name a SET container, in order.
pub open spec fn kept_ids(ids: Seq<Seq<char>>, globals: StringMap<ResolvedObject>) -> Seq<Seq<char>>
    decreases ids.len(),
{
    if ids.len() == 0 {
        Seq::empty()
    } else {
        kept_ids(ids.drop_last(), globals)
            + if container_set(globals, ids.last()) is None { seq![ids.last()] } else { Seq::empty() }
    }
}

/// The first occurrence of each id, in order.
pub open spec fn dedup_ids(s: Seq<Seq<char>>) -> Seq<Seq<char>>
    decreases s.len(),
{
    if s.len() == 0 {
        Seq::empty()
    } else {
        let p = dedup_ids(s.drop_last());
        if p.contains(s.last()) { p } else { p.push(s.last()) }
    }
}

/// The expansions of the SET containers among `ids`, one after the other;
/// `Err` reports the first that fails.
pub open spec fn containers_expansion(ids: Seq<Seq<char>>, globals: StringMap<ResolvedObject>,
    sets: StringMap<ResolvedSetOperation>) -> Result<Seq<Seq<char>>, (Seq<char>, bool)>
    decreases ids.len(),
{
    if ids.len() == 0 {
        Ok(Seq::empty())
    } else {
        match containers_expansion(ids.drop_last(), globals, sets) {
            Err(x) => Err(x),
            Ok(p) => match container_set(globals, ids.last()) {
                None => Ok(p),
                Some(sid) => match set_ref_expansion(sets, sid) {
                    Ok(more) => Ok(p + more),
                    Err(x) => Err(x),
                },
            },
        }
    }
}

/// Once the containers of a prefix fail, those of the whole list fail the same way.
proof fn lemma_containers_err_extends(ids: Seq<Seq<char>>, k: int, globals: StringMap<ResolvedObject>,
    sets: StringMap<ResolvedSetOperation>)
    requires
        0 <= k <= ids.len(),
        containers_expansion(ids.subrange(0, k), globals, sets) is Err,
    ensures
        containers_expansion(ids, globals, sets) == containers_expansion(ids.subrange(0, k), globals, sets),
    decreases ids.len(),
{
    if k == ids.len() {
        assert(ids.subrange(0, k) =~= ids);
    } else {
        assert(ids.drop_last().subrange(0, k) =~= ids.subrange(0, k));
        lemma_containers_err_extends(ids.drop_last(), k, globals, sets);
    }
}

/// The SET referenced by a criterion's local object, if any.
pub open spec fn local_set_ref(d: CriterionDeclaration) -> Option<Seq<char>> {
    match d.local_object {
        Some(o) => object_set_ref(o),
        None => None,
    }
}

/// The expansion of a criterion's local SET reference (nothing without one).
pub open spec fn local_expansion(d: CriterionDeclaration, sets: StringMap<ResolvedSetOperation>)
    -> Result<Seq<Seq<char>>, (Seq<char>, bool)>
{
    match local_set_ref(d) {
        Some(sid) => set_ref_expansion(sets, sid),
        None => Ok(Seq::empty()),
    }
}

/// Some object reference of the criterion names a SET container.
pub open spec fn has_container(ids: Seq<Seq<char>>, globals: StringMap<ResolvedObject>) -> bool {
    exists|i: int| 0 <= i < ids.len() && container_set(globals, #[trigger] ids[i]) is Some
}

/// The criterion reaches a SET, through its local object or a global object.
pub open spec fn declaration_expands(d: CriterionDeclaration, globals: StringMap<ResolvedObject>) -> bool {
    local_set_ref(d) is Some || has_container(ref_ids(d.object_refs@), globals)
}

/// The object references of an expanded criterion: those that are not SET
/// containers, then the local expansion, then the containers' expansions,
/// each id once.
pub open spec fn expanded_ref_ids(d: CriterionDeclaration, globals: StringMap<ResolvedObject>,
    sets: StringMap<ResolvedSetOperation>) -> Seq<Seq<char>>
{
    dedup_ids(kept_ids(ref_ids(d.object_refs@), globals) + local_expansion(d, sets)->Ok_0
        + containers_expansion(ref_ids(d.object_refs@), globals, sets)->Ok_0)
}

/// The criterion's SET references can all be expanded.
pub open spec fn declaration_expandable(d: CriterionDeclaration, globals: StringMap<ResolvedObject>,
    sets: StringMap<ResolvedSetOperation>) -> bool
{
    local_expansion(d, sets) is Ok && containers_expansion(ref_ids(d.object_refs@), globals, sets) is Ok
}

/// `e` reports the first SET reference of the criterion that cannot be expanded.
pub open spec fn declaration_error(e: ResolutionError, d: CriterionDeclaration, globals: StringMap<ResolvedObject>,
    sets: StringMap<ResolvedSetOperation>) -> bool
{
    match local_expansion(d, sets) {
        Err(x) => expansion_error(e, x, d.criterion_type@),
        Ok(_) => match containers_expansion(ref_ids(d.object_refs@), globals, sets) {
            Err(x) => expansion_error(e, x, d.criterion_type@),
            Ok(_) => false,
        },
    }
}

/// The object ids of a concatenation of reference lists.
proof fn lemma_ref_ids_add(a: Seq<ObjectRef>, b: Seq<ObjectRef>)
    ensures
        ref_ids(a + b) == ref_ids(a) + ref_ids(b),
{
    assert(ref_ids(a + b) =~= ref_ids(a) + ref_ids(b));
}

/// Whether the global object `id` is a SET container.
fn is_container(globals: &StringMap<ResolvedObject>, id: &str) -> (res: bool)
    requires
        globals.wf(),
    ensures
        res == container_set(*globals, id@) is Some,
{
    match globals.get(id) {
        Some(g) => contains_set_ref_in_resolved_object(g),
        None => false,
    }
}

/// Whether some reference of `refs` names the object `id`.
fn has_ref(refs: &Vec<ObjectRef>, id: &str) -> (res: bool)
    ensures
        res == ref_ids(refs@).contains(id@),
{
    let mut i: usize = 0;
    while i < refs.len()
        invariant
            i <= refs@.len(),
            forall|j: int| 0 <= j < i ==> refs@[j].object_id@ != id@,
        decreases refs@.len() - i,
    {
        if str_eq(refs[i].object_id.as_str(), id) {
            proof {
                assert(ref_ids(refs@)[i as int] == id@);
            }
            return true;
        }
        i = i + 1;
    }
    proof {
        if ref_ids(refs@).contains(id@) {
            let j = choose|j: int| 0 <= j < ref_ids(refs@).len() && ref_ids(refs@)[j] == id@;
            assert(refs@[j].object_id@ == id@);
        }
    }
    false
}

/// The references that do not name a SET container, in order.
fn keep_non_containers(refs: &Vec<ObjectRef>, globals: &StringMap<ResolvedObject>) -> (res: Vec<ObjectRef>)
    requires
        globals.wf(),
    ensures
        ref_ids(res@) == kept_ids(ref_ids(refs@), *globals),
{
    let ghost ids = ref_ids(refs@);
    let mut out: Vec<ObjectRef> = Vec::new();
    let mut i: usize = 0;
    while i < refs.len()
        invariant
            i <= refs@.len(),
            globals.wf(),
            ids == ref_ids(refs@),
            ref_ids(out@) == kept_ids(ids.subrange(0, i as int), *globals),
        decreases refs@.len() - i,
    {
        proof {
            assert(ids.subrange(0, i + 1).drop_last() =~= ids.subrange(0, i as int));
            assert(ids.subrange(0, i + 1).last() == refs@[i as int].object_id@);
        }
        let ghost ob = out@;
        if !is_container(globals, refs[i].object_id.as_str()) {
            out.push(refs[i].clone());
            proof {
                assert(ref_ids(out@) =~= ref_ids(ob) + seq![refs@[i as int].object_id@]);
            }
        } else {
            proof {
                assert(ref_ids(out@) =~= ref_ids(ob) + Seq::<Seq<char>>::empty());
            }
        }
        i = i + 1;
    }
    proof {
        assert(ids.subrange(0, ids.len() as int) =~= ids);
    }
    out
}

/// The references with each object id kept once, at its first occurrence.
fn dedup_refs(refs: &Vec<ObjectRef>) -> (res: Vec<ObjectRef>)
    ensures
        ref_ids(res@) == dedup_ids(ref_ids(refs@)),
{
    let ghost ids = ref_ids(refs@);
    let mut out: Vec<ObjectRef> = Vec::new();
    let mut i: usize = 0;
    while i < refs.len()
        invariant
            i <= refs@.len(),
            ids == ref_ids(refs@),
            ref_ids(out@) == dedup_ids(ids.subrange(0, i as int)),
        decreases refs@.len() - i,
    {
        proof {
            assert(ids.subrange(0, i + 1).drop_last() =~= ids.subrange(0, i as int));
            assert(ids.subrange(0, i + 1).last() == refs@[i as int].object_id@);
        }
        let ghost ob = out@;
        if !has_ref(&out, refs[i].object_id.as_str()) {
            out.push(refs[i].clone());
            proof {
                assert(ref_ids(out@) =~= ref_ids(ob).push(refs@[i as int].object_id@));
            }
        }
        i = i + 1;
    }
    proof {
        assert(ids.subrange(0, ids.len() as int) =~= ids);
    }
    out
}

/// `d2` is the criterion `d` with its SET references expanded.
pub open spec fn declaration_expanded(d: CriterionDeclaration, d2: CriterionDeclaration,
    globals: StringMap<ResolvedObject>, sets: StringMap<ResolvedSetOperation>) -> bool
{
    &&& d2 == (CriterionDeclaration { local_object: d2.local_object, object_refs: d2.object_refs, ..d })
    &&& d2.local_object == (if local_set_ref(d) is Some { None } else { d.local_object })
    &&& declaration_expands(d, globals) ==> ref_ids(d2.object_refs@) == expanded_ref_ids(d, globals, sets)
    &&& !declaration_expands(d, globals) ==> d2.object_refs == d.object_refs
}

/// Expand the SET references of one criterion: a local object that
/// references a SET is replaced by the SET's objects, and so is every
/// global object reference that references a SET; the references are then
/// kept once each. Returns whether anything was expanded.
pub fn expand_set_ref_in_declaration_helper(
    declaration: &mut CriterionDeclaration,
    resolved_sets: &StringMap<ResolvedSetOperation>,
    resolved_global_objects: &StringMap<ResolvedObject>,
) -> (res: Result<bool, ResolutionError>)
    requires
        resolved_sets.wf(),
        resolved_global_objects.wf(),
        !relation_has_cycle(set_graph(*resolved_sets)),
    ensures
        *final(declaration) == (CriterionDeclaration {
            local_object: final(declaration).local_object,
            object_refs: final(declaration).object_refs,
            ..*old(declaration)
        }),
        res is Ok <==> declaration_expandable(*old(declaration), *resolved_global_objects, *resolved_sets),
        res matches Ok(b) ==> b == declaration_expands(*old(declaration), *resolved_global_objects)
            && declaration_expanded(*old(declaration), *final(declaration), *resolved_global_objects, *resolved_sets),
        res matches Err(e) ==> declaration_error(e, *old(declaration), *resolved_global_objects, *resolved_sets)
            && final(declaration).object_refs == old(declaration).object_refs,
{
    let ghost d0 = *declaration;
    let ghost globals = *resolved_global_objects;
    let ghost sets = *resolved_sets;
    let ghost ids = ref_ids(d0.object_refs@);
    let mut was_expanded = false;
    let mut new_refs: Vec<ObjectRef> = Vec::new();
    let local = match &declaration.local_object {
        Some(lo) => match extract_set_ref_from_declaration_object(lo) {
            Some(set_id) => Some(expand_set_ref_to_object_refs(set_id.as_str(), lo.identifier.as_str(),
                declaration.criterion_type.as_str(), resolved_sets)),
            None => None,
        },
        None => None,
    };
    match local {
        Some(Err(e)) => {
            return Err(e);
        },
        Some(Ok(refs)) => {
            new_refs = refs;
            was_expanded = true;
            declaration.local_object = None;
        },
        None => {},
    }
    proof {
        assert(ref_ids(new_refs@) == local_expansion(d0, sets)->Ok_0);
        assert(was_expanded == local_set_ref(d0) is Some);
        assert(ids.subrange(0, 0) =~= Seq::<Seq<char>>::empty());
    }
    let ghost local_ids = ref_ids(new_refs@);
    let mut i: usize = 0;
    while i < declaration.object_refs.len()
        invariant
            i <= ids.len(),
            ids == ref_ids(declaration.object_refs@),
            d0 == *old(declaration),
            *declaration == (CriterionDeclaration { local_object: declaration.local_object, ..d0 }),
            declaration.local_object == (if local_set_ref(d0) is Some { None } else { d0.local_object }),
            resolved_sets.wf(),
            resolved_global_objects.wf(),
            sets == *resolved_sets,
            globals == *resolved_global_objects,
            !relation_has_cycle(set_graph(sets)),
            local_expansion(d0, sets) == Ok::<Seq<Seq<char>>, (Seq<char>, bool)>(local_ids),
            containers_expansion(ids.subrange(0, i as int), globals, sets) matches Ok(more)
                && ref_ids(new_refs@) == local_ids + more,
            was_expanded == (local_set_ref(d0) is Some
                || exists|j: int| 0 <= j < i && container_set(globals, #[trigger] ids[j]) is Some),
        decreases ids.len() - i,
    {
        let obj_id = &declaration.object_refs[i].object_id;
        let ghost more = containers_expansion(ids.subrange(0, i as int), globals, sets)->Ok_0;
        proof {
            assert(ids.subrange(0, i + 1).drop_last() =~= ids.subrange(0, i as int));
            assert(ids.subrange(0, i + 1).last() == obj_id@);
            assert(ids[i as int] == obj_id@);
        }
        match resolved_global_objects.get(obj_id.as_str()) {
            Some(global_obj) => {
                if contains_set_ref_in_resolved_object(global_obj) {
                    let set_id = match extract_set_ref_from_resolved_object(global_obj) {
                        Some(s) => s,
                        None => {
                            return Err(ResolutionError::InvalidInput {
                                message: concat3("Expected SET_REF in object '", obj_id.as_str(), "' but not found"),
                            });
                        },
                    };
                    let r = expand_set_ref_to_object_refs(set_id.as_str(), obj_id.as_str(),
                        declaration.criterion_type.as_str(), resolved_sets);
                    match r {
                        Err(e) => {
                            proof {
                                lemma_containers_err_extends(ids, i + 1, globals, sets);
                            }
                            return Err(e);
                        },
                        Ok(mut refs) => {
                            let ghost nb = new_refs@;
                            let ghost rb = refs@;
                            new_refs.append(&mut refs);
                            was_expanded = true;
                            proof {
                                lemma_ref_ids_add(nb, rb);
                                assert(ref_ids(new_refs@) =~= local_ids + (more + ref_ids(rb)));
                            }
                        },
                    }
                } else {
                    proof {
                        assert(container_set(globals, ids[i as int]) is None);
                        assert(containers_expansion(ids.subrange(0, i + 1), globals, sets) == Ok::<Seq<Seq<char>>, (Seq<char>, bool)>(more));
                    }
                }
            },
            None => {
                proof {
                    assert(container_set(globals, ids[i as int]) is None);
                    assert(containers_expansion(ids.subrange(0, i + 1), globals, sets) == Ok::<Seq<Seq<char>>, (Seq<char>, bool)>(more));
                }
            },
        }
        proof {
            if container_set(globals, ids[i as int]) is Some {
                assert(was_expanded);
            }
            assert(was_expanded == (local_set_ref(d0) is Some
                || exists|j: int| 0 <= j < i + 1 && container_set(globals, #[trigger] ids[j]) is Some)) by {
                if exists|j: int| 0 <= j < i + 1 && container_set(globals, #[trigger] ids[j]) is Some {
                    let j = choose|j: int| 0 <= j < i + 1 && container_set(globals, #[trigger] ids[j]) is Some;
                    if j < i {
                        assert(exists|j: int| 0 <= j < i && container_set(globals, #[trigger] ids[j]) is Some);
                    }
                }
            }
        }
        i = i + 1;
    }
    proof {
        assert(ids.subrange(0, ids.len() as int) =~= ids);
    }
    if was_expanded {
        let mut combined = keep_non_containers(&declaration.object_refs, resolved_global_objects);
        let ghost cb = combined@;
        let ghost nb = new_refs@;
        combined.append(&mut new_refs);
        proof {
            lemma_ref_ids_add(cb, nb);
            let more = containers_expansion(ids, globals, sets)->Ok_0;
            assert(ref_ids(combined@) =~= kept_ids(ids, globals) + local_ids + more);
        }
        declaration.object_refs = dedup_refs(&combined);
    }
    Ok(was_expanded)
}


/// The number of criteria of `cs` that reach a SET.
pub open spec fn count_expanding(cs: Seq<CriterionDeclaration>, globals: StringMap<ResolvedObject>) -> nat
    decreases cs.len(),
{
    if cs.len() == 0 {
        0
    } else {
        count_expanding(cs.drop_last(), globals) + if declaration_expands(cs.last(), globals) { 1nat } else { 0nat }
    }
}

/// Every criterion of `cs` can be expanded.
pub open spec fn all_expandable(cs: Seq<CriterionDeclaration>, globals: StringMap<ResolvedObject>,
    sets: StringMap<ResolvedSetOperation>) -> bool
{
    forall|i: int| 0 <= i < cs.len() ==> declaration_expandable(#[trigger] cs[i], globals, sets)
}

/// `e` reports the first criterion of `cs` that cannot be expanded.
pub open spec fn criteria_error(e: ResolutionError, cs: Seq<CriterionDeclaration>, globals: StringMap<ResolvedObject>,
    sets: StringMap<ResolvedSetOperation>) -> bool
{
    exists|i: int| #![trigger cs[i]] 0 <= i < cs.len()
        && (forall|j: int| 0 <= j < i ==> declaration_expandable(#[trigger] cs[j], globals, sets))
        && declaration_error(e, cs[i], globals, sets)
}

/// `t2` is the tree `t` with the SET references of its criteria expanded.
pub open spec fn tree_expanded(t: CriteriaTree, t2: CriteriaTree, globals: StringMap<ResolvedObject>,
    sets: StringMap<ResolvedSetOperation>) -> bool
    decreases t,
{
    match t {
        CriteriaTree::Criterion { declaration, node_id } => t2 matches CriteriaTree::Criterion { declaration: d2, node_id: n2 }
            && n2 == node_id && declaration_expanded(declaration, d2, globals, sets),
        CriteriaTree::Block { logical_op, negate, children } => t2 matches CriteriaTree::Block {
            logical_op: op2, negate: ng2, children: cs2 }
            && op2 == logical_op && ng2 == negate && forest_expanded(children@, cs2@, globals, sets),
    }
}

/// Each tree of `s2` is the matching tree of `s` with its criteria expanded.
pub open spec fn forest_expanded(s: Seq<CriteriaTree>, s2: Seq<CriteriaTree>, globals: StringMap<ResolvedObject>,
    sets: StringMap<ResolvedSetOperation>) -> bool
    decreases s,
{
    &&& s.len() == s2.len()
    &&& s.len() > 0 ==> forest_expanded(s.drop_last(), s2.drop_last(), globals, sets)
        && tree_expanded(s.last(), s2.last(), globals, sets)
}

/// The criteria of a list of trees are those of a prefix followed by those of the rest.
proof fn lemma_forest_split(s: Seq<CriteriaTree>, k: int)
    requires
        0 <= k <= s.len(),
    ensures
        forest_criteria(s) == forest_criteria(s.subrange(0, k)) + forest_criteria(s.subrange(k, s.len() as int)),
    decreases s.len(),
{
    if k == s.len() {
        assert(s.subrange(0, k) =~= s);
        assert(s.subrange(k, s.len() as int) =~= Seq::<CriteriaTree>::empty());
    } else {
        lemma_forest_split(s.drop_last(), k);
        assert(s.drop_last().subrange(0, k) =~= s.subrange(0, k));
        assert(s.subrange(k, s.len() as int).drop_last() =~= s.drop_last().subrange(k, s.len() - 1));
        assert(s.subrange(k, s.len() as int).last() == s.last());
    }
}

/// Counting over a concatenation adds the counts.
proof fn lemma_count_add(a: Seq<CriterionDeclaration>, b: Seq<CriterionDeclaration>, globals: StringMap<ResolvedObject>)
    ensures
        count_expanding(a + b, globals) == count_expanding(a, globals) + count_expanding(b, globals),
        count_expanding(b, globals) <= b.len(),
    decreases b.len(),
{
    if b.len() > 0 {
        lemma_count_add(a, b.drop_last(), globals);
        assert((a + b).drop_last() =~= a + b.drop_last());
    } else {
        assert(a + b =~= a);
    }
}

/// Expand the SET references of every criterion of a tree, depth first.
/// Returns the number of criteria that were expanded.
fn expand_set_refs_in_criteria_tree_helper(
    tree: &mut CriteriaTree,
    resolved_sets: &StringMap<ResolvedSetOperation>,
    resolved_global_objects: &StringMap<ResolvedObject>,
) -> (res: Result<usize, ResolutionError>)
    requires
        resolved_sets.wf(),
        resolved_global_objects.wf(),
        !relation_has_cycle(set_graph(*resolved_sets)),
        tree_criteria(*old(tree)).len() <= usize::MAX,
    ensures
        res is Ok <==> all_expandable(tree_criteria(*old(tree)), *resolved_global_objects, *resolved_sets),
        res matches Ok(n) ==> n == count_expanding(tree_criteria(*old(tree)), *resolved_global_objects)
            && tree_expanded(*old(tree), *final(tree), *resolved_global_objects, *resolved_sets),
        res matches Err(e) ==> criteria_error(e, tree_criteria(*old(tree)), *resolved_global_objects, *resolved_sets),
    decreases *old(tree),
{
    let ghost t0 = *tree;
    let ghost globals = *resolved_global_objects;
    let ghost sets = *resolved_sets;
    let mut t = CriteriaTree::Block { logical_op: LogicalOp::And, negate: false, children: Vec::new() };
    std::mem::swap(&mut t, tree);
    match t {
        CriteriaTree::Criterion { mut declaration, node_id } => {
            let ghost d0 = declaration;
            let r = expand_set_ref_in_declaration_helper(&mut declaration, resolved_sets, resolved_global_objects);
            *tree = CriteriaTree::Criterion { declaration, node_id };
            proof {
                assert(tree_criteria(t0) =~= seq![d0]);
                reveal_with_fuel(count_expanding, 2);
            }
            match r {
                Ok(b) => {
                    if b { Ok(1) } else { Ok(0) }
                },
                Err(e) => {
                    proof {
                        assert(seq![d0][0] == d0);
                    }
                    Err(e)
                },
            }
        },
        CriteriaTree::Block { logical_op, negate, children } => {
            let ghost cs = children@;
            let ghost n = cs.len();
            let mut rest = children;
            let n_exec = rest.len();
            let mut done: Vec<CriteriaTree> = Vec::new();
            let mut total: usize = 0;
            let mut k: usize = 0;
            proof {
                assert(tree_criteria(t0) == forest_criteria(cs));
                assert(cs.subrange(0, 0) =~= Seq::<CriteriaTree>::empty());
                assert(rest@ =~= cs.subrange(0, n as int));
                assert(cs.subrange(0, n as int) =~= cs);
            }
            while rest.len() > 0
                invariant
                    k <= n,
                    n == cs.len(),
                    n == n_exec,
                    t0 == *old(tree),
                    t0 matches CriteriaTree::Block { children: c0, .. } && c0@ == cs,
                    rest@ == cs.subrange(k as int, n as int),
                    done@.len() == k,
                    forest_expanded(cs.subrange(0, k as int), done@, globals, sets),
                    all_expandable(forest_criteria(cs.subrange(0, k as int)), globals, sets),
                    total == count_expanding(forest_criteria(cs.subrange(0, k as int)), globals),
                    forest_criteria(cs).len() <= usize::MAX,
                    resolved_sets.wf(),
                    resolved_global_objects.wf(),
                    sets == *resolved_sets,
                    globals == *resolved_global_objects,
                    !relation_has_cycle(set_graph(sets)),
                decreases n - k,
            {
                let ghost child0 = rest@[0];
                let mut child = rest.remove(0);
                proof {
                    assert(child0 == cs[k as int]);
                    assert(t0->children@ == cs);
                    assert(decreases_to!(t0 => t0->children));
                    assert(decreases_to!(t0->children => t0->children@));
                    assert(decreases_to!(t0->children@ => t0->children@[k as int]));
                    assert(decreases_to!(*old(tree) => child0));
                    lemma_forest_split(cs, k as int);
                    lemma_forest_split(cs.subrange(k as int, n as int), 1);
                    assert(cs.subrange(k as int, n as int).subrange(0, 1) =~= seq![cs[k as int]]);
                    reveal_with_fuel(forest_criteria, 2);
                    assert(forest_criteria(seq![cs[k as int]]) =~= tree_criteria(cs[k as int])) by {
                        assert(seq![cs[k as int]].drop_last() =~= Seq::<CriteriaTree>::empty());
                    }
                    assert(cs.subrange(0, k + 1).drop_last() =~= cs.subrange(0, k as int));
                    assert(cs.subrange(0, k + 1).last() == cs[k as int]);
                    assert(forest_criteria(cs.subrange(0, k + 1))
                        == forest_criteria(cs.subrange(0, k as int)) + tree_criteria(cs[k as int]));
                    lemma_forest_split(cs, k + 1);
                    lemma_count_add(forest_criteria(cs.subrange(0, k as int)), tree_criteria(cs[k as int]), globals);
                    lemma_count_add(Seq::empty(), forest_criteria(cs.subrange(0, k + 1)), globals);
                    assert(Seq::<CriterionDeclaration>::empty() + forest_criteria(cs.subrange(0, k + 1))
                        =~= forest_criteria(cs.subrange(0, k + 1)));
                }
                let r = expand_set_refs_in_criteria_tree_helper(&mut child, resolved_sets, resolved_global_objects);
                let ghost child1 = child;
                let ghost db = done@;
                done.push(child);
                match r {
                    Err(e) => {
                        proof {
                            let pre = forest_criteria(cs.subrange(0, k as int));
                            let mid = tree_criteria(cs[k as int]);
                            let all = forest_criteria(cs);
                            let i = choose|i: int| #![trigger mid[i]] 0 <= i < mid.len()
                                && (forall|j: int| 0 <= j < i ==> declaration_expandable(#[trigger] mid[j], globals, sets))
                                && declaration_error(e, mid[i], globals, sets);
                            assert(all[pre.len() + i] == mid[i]);
                            assert forall|j: int| 0 <= j < pre.len() + i implies
                                declaration_expandable(#[trigger] all[j], globals, sets) by {
                                if j < pre.len() {
                                    assert(all[j] == pre[j]);
                                } else {
                                    assert(all[j] == mid[j - pre.len()]);
                                }
                            }
                            assert(criteria_error(e, all, globals, sets));
                            assert(!all_expandable(all, globals, sets)) by {
                                assert(!declaration_expandable(all[pre.len() + i], globals, sets));
                            }
                        }
                        done.append(&mut rest);
                        *tree = CriteriaTree::Block { logical_op, negate, children: done };
                        return Err(e);
                    },
                    Ok(c) => {
                        proof {
                            let pre = forest_criteria(cs.subrange(0, k as int));
                            let mid = tree_criteria(cs[k as int]);
                            assert(done@.drop_last() =~= done@.subrange(0, k as int));
                            assert forall|j: int| 0 <= j < (pre + mid).len() implies
                                declaration_expandable(#[trigger] (pre + mid)[j], globals, sets) by {
                                if j < pre.len() {
                                    assert((pre + mid)[j] == pre[j]);
                                } else {
                                    assert((pre + mid)[j] == mid[j - pre.len()]);
                                }
                            }
                        }
                        total = total + c;
                        proof {
                            let ds = done@;
                            assert(ds.drop_last() =~= db);
                            assert(cs.subrange(0, k + 1).drop_last() =~= cs.subrange(0, k as int));
                            assert(cs.subrange(0, k + 1).last() == cs[k as int]);
                            assert(ds.last() == child1);
                            assert(forest_expanded(cs.subrange(0, k + 1), ds, globals, sets));
                        }
                    },
                }
                k = k + 1;
                proof {
                    assert(rest@ =~= cs.subrange(k as int, n as int));
                }
            }
            proof {
                assert(k == n);
                assert(cs.subrange(0, n as int) =~= cs);
            }
            *tree = CriteriaTree::Block { logical_op, negate, children: done };
            Ok(total)
        },
    }
}

/// Expand the SET references of every criterion, after checking that no SET
/// reaches itself.
pub fn expand_sets_in_resolution_context(context: &mut ResolutionContext) -> (res: Result<(), ResolutionError>)
    requires
        context_wf(*old(context)),
        forest_criteria(old(context).criteria_root.trees@).len() <= usize::MAX,
    ensures
        relation_has_cycle(set_graph(old(context).resolved_sets)) ==> (res matches Err(e)
            && (e matches ResolutionError::CircularDependency { cycle }
            && is_set_lasso(old(context).resolved_sets, views(cycle@)))
            && *final(context) == *old(context)),
        !relation_has_cycle(set_graph(old(context).resolved_sets)) ==> {
            &&& res is Ok <==> all_expandable(forest_criteria(old(context).criteria_root.trees@),
                old(context).resolved_global_objects, old(context).resolved_sets)
            &&& res matches Err(e) ==> criteria_error(e, forest_criteria(old(context).criteria_root.trees@),
                old(context).resolved_global_objects, old(context).resolved_sets)
            &&& res is Ok ==> forest_expanded(old(context).criteria_root.trees@, final(context).criteria_root.trees@,
                old(context).resolved_global_objects, old(context).resolved_sets)
        },
        *final(context) == (ResolutionContext {
            criteria_root: CriteriaRoot { trees: final(context).criteria_root.trees, ..old(context).criteria_root },
            ..*old(context)
        }),
{
    match validate_set_expansions(context) {
        Err(e) => {
            return Err(e);
        },
        Ok(()) => {},
    }
    let ghost c0 = *context;
    let ghost cs = c0.criteria_root.trees@;
    let ghost n = cs.len();
    let mut rest: Vec<CriteriaTree> = Vec::new();
    std::mem::swap(&mut rest, &mut context.criteria_root.trees);
    let n_exec = rest.len();
    let mut done: Vec<CriteriaTree> = Vec::new();
    let mut k: usize = 0;
    proof {
        assert(cs.subrange(0, 0) =~= Seq::<CriteriaTree>::empty());
        assert(rest@ =~= cs.subrange(0, n as int));
    }
    while rest.len() > 0
        invariant
            k <= n,
            n == cs.len(),
            n == n_exec,
            c0 == *old(context),
            cs == c0.criteria_root.trees@,
            rest@ == cs.subrange(k as int, n as int),
            done@.len() == k,
            *context == (ResolutionContext {
                criteria_root: CriteriaRoot { trees: context.criteria_root.trees, ..c0.criteria_root },
                ..c0
            }),
            context_wf(c0),
            !relation_has_cycle(set_graph(c0.resolved_sets)),
            forest_expanded(cs.subrange(0, k as int), done@, c0.resolved_global_objects, c0.resolved_sets),
            all_expandable(forest_criteria(cs.subrange(0, k as int)), c0.resolved_global_objects, c0.resolved_sets),
            forest_criteria(cs).len() <= usize::MAX,
        decreases n - k,
    {
        let mut tree = rest.remove(0);
        let ghost tree0 = tree;
        proof {
            assert(tree0 == cs[k as int]);
            lemma_forest_split(cs, k as int);
            lemma_forest_split(cs, k + 1);
            assert(cs.subrange(0, k + 1).drop_last() =~= cs.subrange(0, k as int));
            assert(cs.subrange(0, k + 1).last() == cs[k as int]);
            assert(forest_criteria(cs.subrange(0, k + 1))
                == forest_criteria(cs.subrange(0, k as int)) + tree_criteria(cs[k as int]));
            lemma_count_add(forest_criteria(cs.subrange(0, k + 1)), forest_criteria(cs.subrange(k + 1, n as int)),
                c0.resolved_global_objects);
        }
        let r = expand_set_refs_in_criteria_tree_helper(&mut tree, &context.resolved_sets, &context.resolved_global_objects);
        let ghost tree1 = tree;
        let ghost db = done@;
        done.push(tree);
        match r {
            Err(e) => {
                proof {
                    let pre = forest_criteria(cs.subrange(0, k as int));
                    let mid = tree_criteria(cs[k as int]);
                    let all = forest_criteria(cs);
                    let i = choose|i: int| #![trigger mid[i]] 0 <= i < mid.len()
                        && (forall|j: int| 0 <= j < i ==> declaration_expandable(#[trigger] mid[j], c0.resolved_global_objects, c0.resolved_sets))
                        && declaration_error(e, mid[i], c0.resolved_global_objects, c0.resolved_sets);
                    assert(all[pre.len() + i] == mid[i]);
                    assert forall|j: int| 0 <= j < pre.len() + i implies
                        declaration_expandable(#[trigger] all[j], c0.resolved_global_objects, c0.resolved_sets) by {
                        if j < pre.len() {
                            assert(all[j] == pre[j]);
                        } else {
                            assert(all[j] == mid[j - pre.len()]);
                        }
                    }
                    assert(criteria_error(e, all, c0.resolved_global_objects, c0.resolved_sets));
                    assert(!all_expandable(all, c0.resolved_global_objects, c0.resolved_sets)) by {
                        assert(!declaration_expandable(all[pre.len() + i], c0.resolved_global_objects, c0.resolved_sets));
                    }
                }
                done.append(&mut rest);
                context.criteria_root.trees = done;
                return Err(e);
            },
            Ok(_) => {
                proof {
                    let pre = forest_criteria(cs.subrange(0, k as int));
                    let mid = tree_criteria(cs[k as int]);
                    assert forall|j: int| 0 <= j < (pre + mid).len() implies
                        declaration_expandable(#[trigger] (pre + mid)[j], c0.resolved_global_objects, c0.resolved_sets) by {
                        if j < pre.len() {
                            assert((pre + mid)[j] == pre[j]);
                        } else {
                            assert((pre + mid)[j] == mid[j - pre.len()]);
                        }
                    }
                    let ds = done@;
                    assert(ds.drop_last() =~= db);
                    assert(ds.last() == tree1);
                    assert(cs.subrange(0, k + 1).drop_last() =~= cs.subrange(0, k as int));
                    assert(cs.subrange(0, k + 1).last() == cs[k as int]);
                    assert(forest_expanded(cs.subrange(0, k + 1), ds, c0.resolved_global_objects, c0.resolved_sets));
                }
            },
        }
        k = k + 1;
        proof {
            assert(rest@ =~= cs.subrange(k as int, n as int));
        }
    }
    proof {
        assert(k == n);
        assert(cs.subrange(0, n as int) =~= cs);
    }
    context.criteria_root.trees = done;
    Ok(())
}

} // verus!
