//! Cycles of a successor relation between symbols, and the facts that a
//! depth-first search relies on to conclude that there is none.

use vstd::prelude::*;

verus! {

/// Some successor of `x` lies in `s`.
#[verifier::opaque]
pub open spec fn has_succ_in(succ: spec_fn(Seq<char>, Seq<char>) -> bool, x: Seq<char>, s: Set<Seq<char>>) -> bool {
    exists|y: Seq<char>| s.contains(y) && succ(x, y)
}

/// `s` is a non-empty set in which every symbol has a successor.
pub open spec fn is_cycle_set(succ: spec_fn(Seq<char>, Seq<char>) -> bool, s: Set<Seq<char>>) -> bool {
    &&& exists|x: Seq<char>| s.contains(x)
    &&& forall|x: Seq<char>| #[trigger] s.contains(x) ==> has_succ_in(succ, x, s)
}

/// The relation has a cycle.
pub open spec fn relation_has_cycle(succ: spec_fn(Seq<char>, Seq<char>) -> bool) -> bool {
    exists|s: Set<Seq<char>>| is_cycle_set(succ, s)
}

/// Every successor of a symbol of `f` is in `f`.
pub open spec fn closed_under(succ: spec_fn(Seq<char>, Seq<char>) -> bool, f: Set<Seq<char>>) -> bool {
    forall|x: Seq<char>, y: Seq<char>| #![trigger f.contains(x), succ(x, y)]
        f.contains(x) && succ(x, y) ==> f.contains(y)
}

/// No cycle lies within `f`.
#[verifier::opaque]
pub open spec fn acyclic_within(succ: spec_fn(Seq<char>, Seq<char>) -> bool, f: Set<Seq<char>>) -> bool {
    forall|s: Set<Seq<char>>| #[trigger] is_cycle_set(succ, s) ==> !s.subset_of(f)
}

/// The empty set is closed and holds no cycle.
pub proof fn lemma_empty_finished(succ: spec_fn(Seq<char>, Seq<char>) -> bool)
    ensures
        closed_under(succ, Set::empty()),
        acyclic_within(succ, Set::empty()),
{
    reveal(acyclic_within);
    assert forall|s: Set<Seq<char>>| #[trigger] is_cycle_set(succ, s) implies !s.subset_of(Set::empty()) by {
        let x = choose|x: Seq<char>| s.contains(x);
        assert(!Set::<Seq<char>>::empty().contains(x));
    }
}

/// A cycle set that meets a closed set `f` has a part inside `f` that is
/// itself a cycle set.
proof fn lemma_cycle_part(succ: spec_fn(Seq<char>, Seq<char>) -> bool, s: Set<Seq<char>>, f: Set<Seq<char>>, x: Seq<char>)
    requires
        is_cycle_set(succ, s),
        closed_under(succ, f),
        s.contains(x),
        f.contains(x),
    ensures
        is_cycle_set(succ, s.intersect(f)),
        s.intersect(f).subset_of(f),
{
    let t = s.intersect(f);
    assert(t.contains(x));
    assert forall|z: Seq<char>| #[trigger] t.contains(z) implies has_succ_in(succ, z, t) by {
        assert(has_succ_in(succ, z, s));
        reveal(has_succ_in);
        let w = choose|w: Seq<char>| s.contains(w) && succ(z, w);
        assert(f.contains(z) && succ(z, w));
        assert(t.contains(w));
    }
}

/// Adding a symbol all of whose successors are already in `f` keeps `f`
/// closed and free of cycles.
pub proof fn lemma_extend_finished(succ: spec_fn(Seq<char>, Seq<char>) -> bool, f: Set<Seq<char>>, x: Seq<char>)
    requires
        closed_under(succ, f),
        acyclic_within(succ, f),
        forall|y: Seq<char>| #[trigger] succ(x, y) ==> f.contains(y),
    ensures
        closed_under(succ, f.insert(x)),
        acyclic_within(succ, f.insert(x)),
{
    let g = f.insert(x);
    assert forall|a: Seq<char>, b: Seq<char>| g.contains(a) && #[trigger] succ(a, b) implies g.contains(b) by {
        if a != x {
            assert(f.contains(a));
        }
    }
    reveal(acyclic_within);
    assert forall|s: Set<Seq<char>>| #[trigger] is_cycle_set(succ, s) implies !s.subset_of(g) by {
        if s.subset_of(g) {
            if s.contains(x) {
                assert(has_succ_in(succ, x, s));
                reveal(has_succ_in);
                let y = choose|y: Seq<char>| s.contains(y) && succ(x, y);
                assert(f.contains(y));
                lemma_cycle_part(succ, s, f, y);
                assert(!s.intersect(f).subset_of(f));
            } else {
                assert(s.subset_of(f)) by {
                    assert forall|z: Seq<char>| s.contains(z) implies f.contains(z) by {
                        assert(g.contains(z));
                    }
                }
            }
        }
    }
}

/// The union of two closed sets free of cycles is closed and free of cycles.
pub proof fn lemma_union_finished(succ: spec_fn(Seq<char>, Seq<char>) -> bool, a: Set<Seq<char>>, b: Set<Seq<char>>)
    requires
        closed_under(succ, a),
        closed_under(succ, b),
        acyclic_within(succ, a),
        acyclic_within(succ, b),
    ensures
        closed_under(succ, a.union(b)),
        acyclic_within(succ, a.union(b)),
{
    let u = a.union(b);
    assert forall|x: Seq<char>, y: Seq<char>| u.contains(x) && #[trigger] succ(x, y) implies u.contains(y) by {
        if a.contains(x) {
            assert(a.contains(y));
        } else {
            assert(b.contains(x));
            assert(b.contains(y));
        }
    }
    reveal(acyclic_within);
    assert forall|s: Set<Seq<char>>| #[trigger] is_cycle_set(succ, s) implies !s.subset_of(u) by {
        if s.subset_of(u) {
            let x = choose|x: Seq<char>| s.contains(x);
            if a.contains(x) {
                lemma_cycle_part(succ, s, a, x);
            } else {
                lemma_cycle_part(succ, s, b, x);
            }
        }
    }
}

/// A relation with no cycle within a set that holds every symbol that has a
/// successor has no cycle at all.
pub proof fn lemma_no_cycle(succ: spec_fn(Seq<char>, Seq<char>) -> bool, f: Set<Seq<char>>)
    requires
        acyclic_within(succ, f),
        forall|x: Seq<char>, y: Seq<char>| #[trigger] succ(x, y) ==> f.contains(x),
    ensures
        !relation_has_cycle(succ),
{
    if relation_has_cycle(succ) {
        let s = choose|s: Set<Seq<char>>| is_cycle_set(succ, s);
        assert(s.subset_of(f)) by {
            assert forall|x: Seq<char>| s.contains(x) implies f.contains(x) by {
                assert(has_succ_in(succ, x, s));
                reveal(has_succ_in);
                let y = choose|y: Seq<char>| s.contains(y) && succ(x, y);
            }
        }
        reveal(acyclic_within);
    }
}

/// A chain of successors whose last symbol occurs earlier in it shows a cycle.
pub proof fn lemma_lasso(succ: spec_fn(Seq<char>, Seq<char>) -> bool, p: Seq<Seq<char>>, k: int)
    requires
        0 <= k < p.len() - 1,
        p[k] == p.last(),
        forall|i: int| 0 <= i < p.len() - 1 ==> succ(#[trigger] p[i], p[i + 1]),
    ensures
        relation_has_cycle(succ),
{
    let s = Set::new(|x: Seq<char>| exists|i: int| k <= i < p.len() - 1 && #[trigger] p[i] == x);
    assert(s.contains(p[k]));
    assert forall|x: Seq<char>| #[trigger] s.contains(x) implies has_succ_in(succ, x, s) by {
        let i = choose|i: int| k <= i < p.len() - 1 && #[trigger] p[i] == x;
        reveal(has_succ_in);
        assert(succ(p[i], p[i + 1]));
        if i + 1 < p.len() - 1 {
            assert(s.contains(p[i + 1]));
        } else {
            assert(p[i + 1] == p[k]);
            assert(s.contains(p[k]));
        }
    }
    assert(is_cycle_set(succ, s));
}

/// The symbols visited and not on the search path: those fully explored.
pub open spec fn finished(visited: Seq<Seq<char>>, path: Seq<Seq<char>>) -> Set<Seq<char>> {
    Set::new(|x: Seq<char>| visited.contains(x) && !path.contains(x))
}

/// Extending a list keeps what it holds, and what was explored stays explored.
pub proof fn lemma_prefix_grows(vb: Seq<Seq<char>>, va: Seq<Seq<char>>, p: Seq<Seq<char>>)
    requires
        vb.len() <= va.len(),
        va.subrange(0, vb.len() as int) == vb,
    ensures
        forall|x: Seq<char>| vb.contains(x) ==> va.contains(x),
        finished(vb, p).subset_of(finished(va, p)),
{
    assert forall|x: Seq<char>| vb.contains(x) implies va.contains(x) by {
        let j = choose|j: int| 0 <= j < vb.len() && vb[j] == x;
        assert(va.subrange(0, vb.len() as int)[j] == x);
    }
}

} // verus!
