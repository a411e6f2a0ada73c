//! Dependency graph of symbols: resolution ordering and cycle detection.
//!
//! An edge `from -> to` means that `from` depends on `to`: `to` must be
//! resolved before `from`.

use vstd::prelude::*;
use crate::strings::{str_eq, concat2, concat3, concat4, concat5, usize_to_string, decimal};
use crate::string_map::{StringMap, CtnMap};
use crate::types::criterion::CtnNodeId;
use crate::resolution::error::ResolutionError;
use crate::resolution::cycles::{closed_under, acyclic_within, relation_has_cycle, is_cycle_set, has_succ_in,
    lemma_empty_finished, lemma_extend_finished, lemma_no_cycle, finished, lemma_prefix_grows};

verus! {

/// Kinds of symbols that can be resolved.
#[derive(Debug, Clone, Copy, PartialEq, Eq, Structural)]
pub enum SymbolType {
    Variable,
    GlobalState,
    GlobalObject,
    SetOperation,
    RuntimeOperation,
    LocalState,
    LocalObject,
}

/// The spelling of each symbol type.
pub open spec fn symbol_type_name(t: SymbolType) -> Seq<char> {
    match t {
        SymbolType::Variable => "Variable"@,
        SymbolType::GlobalState => "GlobalState"@,
        SymbolType::GlobalObject => "GlobalObject"@,
        SymbolType::SetOperation => "SetOperation"@,
        SymbolType::RuntimeOperation => "RuntimeOperation"@,
        SymbolType::LocalState => "LocalState"@,
        SymbolType::LocalObject => "LocalObject"@,
    }
}

/// Symbols of global scope.
pub open spec fn spec_is_global(t: SymbolType) -> bool {
    match t {
        SymbolType::LocalState | SymbolType::LocalObject => false,
        _ => true,
    }
}

impl SymbolType {
    /// Parse a symbol type from its spelling.
    pub fn from_str(s: &str) -> (res: Option<SymbolType>)
        ensures
            match res {
                Some(t) => symbol_type_name(t) == s@,
                None => forall|t: SymbolType| symbol_type_name(t) != s@,
            },
    {
        if str_eq(s, "Variable") {
            Some(SymbolType::Variable)
        } else if str_eq(s, "GlobalState") {
            Some(SymbolType::GlobalState)
        } else if str_eq(s, "GlobalObject") {
            Some(SymbolType::GlobalObject)
        } else if str_eq(s, "SetOperation") {
            Some(SymbolType::SetOperation)
        } else if str_eq(s, "RuntimeOperation") {
            Some(SymbolType::RuntimeOperation)
        } else if str_eq(s, "LocalState") {
            Some(SymbolType::LocalState)
        } else if str_eq(s, "LocalObject") {
            Some(SymbolType::LocalObject)
        } else {
            proof {
                assert forall|t: SymbolType| symbol_type_name(t) != s@ by {
                    match t {
                        SymbolType::Variable => {},
                        SymbolType::GlobalState => {},
                        SymbolType::GlobalObject => {},
                        SymbolType::SetOperation => {},
                        SymbolType::RuntimeOperation => {},
                        SymbolType::LocalState => {},
                        SymbolType::LocalObject => {},
                    }
                }
            }
            None
        }
    }

    /// The spelling of this symbol type.
    pub fn as_str(&self) -> (res: &'static str)
        ensures
            res@ == symbol_type_name(*self),
    {
        match self {
            SymbolType::Variable => "Variable",
            SymbolType::GlobalState => "GlobalState",
            SymbolType::GlobalObject => "GlobalObject",
            SymbolType::SetOperation => "SetOperation",
            SymbolType::RuntimeOperation => "RuntimeOperation",
            SymbolType::LocalState => "LocalState",
            SymbolType::LocalObject => "LocalObject",
        }
    }

    /// Whether the symbol is of global scope.
    pub fn is_global(&self) -> (res: bool)
        ensures
            res == spec_is_global(*self),
    {
        match self {
            SymbolType::LocalState | SymbolType::LocalObject => false,
            _ => true,
        }
    }

    /// Whether the symbol is local to one criterion.
    pub fn is_local(&self) -> (res: bool)
        ensures
            res == !spec_is_global(*self),
    {
        match self {
            SymbolType::LocalState | SymbolType::LocalObject => true,
            _ => false,
        }
    }
}

/// The character sequences of a list of strings.
pub open spec fn views(s: Seq<String>) -> Seq<Seq<char>> {
    s.map_values(|x: String| x@)
}

/// Whether `x` occurs in a list of strings; returns its position.
pub fn position_in(v: &Vec<String>, x: &str) -> (res: Option<usize>)
    ensures
        match res {
            Some(i) => i < v@.len() && v@[i as int]@ == x@
                && forall|j: int| 0 <= j < i ==> v@[j]@ != x@,
            None => !views(v@).contains(x@),
        },
        res is Some ==> views(v@).contains(x@),
{
    let mut i: usize = 0;
    while i < v.len()
        invariant
            i <= v@.len(),
            forall|j: int| 0 <= j < i ==> v@[j]@ != x@,
        decreases v@.len() - i,
    {
        if str_eq(v[i].as_str(), x) {
            proof {
                assert(views(v@)[i as int] == x@);
            }
            return Some(i);
        }
        i = i + 1;
    }
    proof {
        if views(v@).contains(x@) {
            let j = choose|j: int| 0 <= j < views(v@).len() && views(v@)[j] == x@;
            assert(v@[j]@ == x@);
        }
    }
    None
}

/// A node of the dependency graph.
#[derive(Debug)]
pub struct SymbolNode {
    pub symbol_id: String,
    pub symbol_type: SymbolType,
    pub ctn_context: Option<CtnNodeId>,
    pub dependencies: Vec<String>,
    pub dependents: Vec<String>,
}

impl SymbolNode {
    /// A global node without dependencies.
    pub fn new(symbol_id: String, symbol_type: SymbolType) -> (res: SymbolNode)
        ensures
            res.symbol_id == symbol_id,
            res.symbol_type == symbol_type,
            res.ctn_context is None,
            res.dependencies@.len() == 0,
            res.dependents@.len() == 0,
    {
        SymbolNode {
            symbol_id,
            symbol_type,
            ctn_context: None,
            dependencies: Vec::new(),
            dependents: Vec::new(),
        }
    }

    /// A node local to criterion `ctn_id`, without dependencies.
    pub fn new_local(symbol_id: String, symbol_type: SymbolType, ctn_id: CtnNodeId) -> (res: SymbolNode)
        ensures
            res.symbol_id == symbol_id,
            res.symbol_type == symbol_type,
            res.ctn_context == Some(ctn_id),
            res.dependencies@.len() == 0,
            res.dependents@.len() == 0,
    {
        SymbolNode {
            symbol_id,
            symbol_type,
            ctn_context: Some(ctn_id),
            dependencies: Vec::new(),
            dependents: Vec::new(),
        }
    }

    /// Record a dependency unless it is already recorded.
    pub fn add_dependency(&mut self, dependency: String)
        ensures
            final(self).symbol_id == old(self).symbol_id,
            final(self).symbol_type == old(self).symbol_type,
            final(self).ctn_context == old(self).ctn_context,
            final(self).dependents@ == old(self).dependents@,
            if views(old(self).dependencies@).contains(dependency@) {
                final(self).dependencies@ == old(self).dependencies@
            } else {
                final(self).dependencies@ == old(self).dependencies@.push(dependency)
            },
    {
        if position_in(&self.dependencies, dependency.as_str()).is_none() {
            self.dependencies.push(dependency);
        } else {
            proof {
                let i = choose|i: int| 0 <= i < self.dependencies@.len() && self.dependencies@[i]@ == dependency@;
                assert(views(self.dependencies@)[i] == dependency@);
            }
        }
    }

    /// Record a dependent unless it is already recorded.
    pub fn add_dependent(&mut self, dependent: String)
        ensures
            final(self).symbol_id == old(self).symbol_id,
            final(self).symbol_type == old(self).symbol_type,
            final(self).ctn_context == old(self).ctn_context,
            final(self).dependencies@ == old(self).dependencies@,
            if views(old(self).dependents@).contains(dependent@) {
                final(self).dependents@ == old(self).dependents@
            } else {
                final(self).dependents@ == old(self).dependents@.push(dependent)
            },
    {
        if position_in(&self.dependents, dependent.as_str()).is_none() {
            self.dependents.push(dependent);
        } else {
            proof {
                let i = choose|i: int| 0 <= i < self.dependents@.len() && self.dependents@[i]@ == dependent@;
                assert(views(self.dependents@)[i] == dependent@);
            }
        }
    }

    /// Whether the node has dependencies.
    pub fn has_dependencies(&self) -> (res: bool)
        ensures
            res == (self.dependencies@.len() > 0),
    {
        self.dependencies.len() > 0
    }

    /// The number of distinct dependencies.
    pub fn dependency_count(&self) -> (res: usize)
        ensures
            res == self.dependencies@.len(),
    {
        self.dependencies.len()
    }
}

} // verus!

verus! {

/// Occurrences of `x` in `s`.
pub open spec fn count_of(s: Seq<Seq<char>>, x: Seq<char>) -> nat
    decreases s.len(),
{
    if s.len() == 0 {
        0
    } else {
        count_of(s.drop_last(), x) + if s.last() == x { 1nat } else { 0nat }
    }
}

/// Entries of `s` that do not occur in `p`.
pub open spec fn count_outside(s: Seq<Seq<char>>, p: Seq<Seq<char>>) -> nat
    decreases s.len(),
{
    if s.len() == 0 {
        0
    } else {
        count_outside(s.drop_last(), p) + if p.contains(s.last()) { 0nat } else { 1nat }
    }
}

/// `x` added to `s` unless `s` already holds it.
pub open spec fn added_once(s: Seq<Seq<char>>, x: Seq<char>) -> Seq<Seq<char>> {
    if s.contains(x) { s } else { s.push(x) }
}

/// Adding `x` once to a list without repetitions gives a list without
/// repetitions that holds `x`.
pub proof fn lemma_added_once_distinct(s: Seq<Seq<char>>, x: Seq<char>)
    requires
        s.no_duplicates(),
    ensures
        added_once(s, x).no_duplicates(),
        added_once(s, x).contains(x),
{
    if !s.contains(x) {
        let t = s.push(x);
        assert(t[s.len() as int] == x);
        assert forall|a: int, b: int| 0 <= a < t.len() && 0 <= b < t.len() && a != b implies t[a] != t[b] by {
            if a == s.len() {
                assert(t[b] == s[b]);
            } else if b == s.len() {
                assert(t[a] == s[a]);
            } else {
                assert(t[a] == s[a] && t[b] == s[b]);
            }
        }
    }
}

/// In a list without repetitions an entry occurs once if at all.
pub proof fn lemma_count_distinct(s: Seq<Seq<char>>, x: Seq<char>)
    requires
        s.no_duplicates(),
    ensures
        count_of(s, x) == (if s.contains(x) { 1nat } else { 0nat }),
    decreases s.len(),
{
    if s.len() > 0 {
        let t = s.drop_last();
        assert(t.no_duplicates()) by {
            assert forall|a: int, b: int| 0 <= a < t.len() && 0 <= b < t.len() && a != b implies t[a] != t[b] by {
                assert(t[a] == s[a] && t[b] == s[b]);
            }
        }
        lemma_count_distinct(t, x);
        if s.last() == x {
            assert(s[s.len() - 1] == x);
            if t.contains(x) {
                let j = choose|j: int| 0 <= j < t.len() && t[j] == x;
                assert(s[j] == x);
            }
        } else {
            if s.contains(x) {
                let j = choose|j: int| 0 <= j < s.len() && s[j] == x;
                assert(t[j] == x);
            }
            if t.contains(x) {
                let j = choose|j: int| 0 <= j < t.len() && t[j] == x;
                assert(s[j] == x);
            }
        }
    }
}

/// `b` has the id, kind and criterion of `a`.
pub open spec fn node_fields_kept(a: SymbolNode, b: SymbolNode) -> bool {
    b.symbol_id == a.symbol_id && b.symbol_type == a.symbol_type && b.ctn_context == a.ctn_context
}

/// Statistics of a dependency graph.
#[derive(Debug, Clone, Copy)]
pub struct GraphStats {
    pub total_nodes: usize,
    pub total_edges: usize,
    pub global_symbols: usize,
    pub local_symbols: usize,
    pub max_dependencies: usize,
    pub nodes_with_no_dependencies: usize,
}

impl GraphStats {
    /// At most 10 dependencies for any node and at most 3 per node on average.
    pub fn is_well_balanced(&self) -> (res: bool)
        ensures
            res == (self.max_dependencies <= 10
                && (self.total_nodes == 0 || self.total_edges <= 3 * self.total_nodes)),
    {
        self.max_dependencies <= 10
            && (self.total_nodes == 0 || self.total_edges / 3 < self.total_nodes
                || (self.total_edges / 3 == self.total_nodes && self.total_edges % 3 == 0))
    }
}

/// The dependency graph of the symbols of a definition.
#[derive(Debug)]
pub struct DependencyGraph {
    /// The nodes, by symbol id.
    pub nodes: StringMap<SymbolNode>,
    /// For each symbol, the symbols it depends on (one entry per edge).
    pub edges: StringMap<Vec<String>>,
    /// For each symbol, the symbols that depend on it (one entry per edge).
    pub reverse_edges: StringMap<Vec<String>>,
    /// The global symbols.
    pub global_symbols: Vec<String>,
    /// The local symbols of each criterion.
    pub local_symbols: CtnMap<Vec<String>>,
}

impl DependencyGraph {
    /// The symbol ids, in insertion order.
    pub open spec fn node_keys(&self) -> Seq<Seq<char>> {
        self.nodes.spec_keys()
    }

    /// `k` is a symbol of the graph.
    pub open spec fn is_node(&self, k: Seq<char>) -> bool {
        self.nodes.has(k)
    }

    /// The symbols that `k` depends on, one entry per edge.
    pub open spec fn deps(&self, k: Seq<char>) -> Seq<Seq<char>> {
        if self.edges.has(k) { views(self.edges.at(k)@) } else { Seq::empty() }
    }

    /// The symbols that depend on `k`, one entry per edge.
    pub open spec fn rdeps(&self, k: Seq<char>) -> Seq<Seq<char>> {
        if self.reverse_edges.has(k) { views(self.reverse_edges.at(k)@) } else { Seq::empty() }
    }

    /// The graph is consistent: the three maps have the same keys in the same
    /// order, every edge joins two symbols of the graph, and the reverse edges
    /// mirror the edges, multiplicities included.
    pub open spec fn wf(&self) -> bool {
        &&& self.nodes.wf()
        &&& self.edges.wf()
        &&& self.reverse_edges.wf()
        &&& self.edges.spec_keys() == self.nodes.spec_keys()
        &&& self.reverse_edges.spec_keys() == self.nodes.spec_keys()
        &&& forall|k: Seq<char>, d: Seq<char>|
            self.is_node(k) && #[trigger] self.deps(k).contains(d) ==> self.is_node(d)
        &&& forall|k: Seq<char>, d: Seq<char>|
            self.is_node(k) && #[trigger] self.rdeps(k).contains(d) ==> self.is_node(d)
        &&& forall|a: Seq<char>, b: Seq<char>|
            #![trigger count_of(self.deps(a), b)]
            #![trigger count_of(self.rdeps(b), a)]
            self.is_node(a) && self.is_node(b) ==> count_of(self.deps(a), b) == count_of(self.rdeps(b), a)
    }

    /// No list of the graph repeats an entry: the global symbols, the local
    /// symbols of each criterion, and the dependencies and dependents of
    /// each node.
    pub open spec fn lists_distinct(&self) -> bool {
        &&& views(self.global_symbols@).no_duplicates()
        &&& forall|c: usize| #[trigger] self.local_symbols.has(c) ==> views(self.local_symbols.at(c)@).no_duplicates()
        &&& forall|k: Seq<char>| #[trigger] self.is_node(k) ==> views(self.nodes.at(k).dependencies@).no_duplicates()
            && views(self.nodes.at(k).dependents@).no_duplicates()
    }

    /// Some symbol that `x` depends on belongs to `s`.
    #[verifier::opaque]
    pub open spec fn has_dep_in(&self, x: Seq<char>, s: Set<Seq<char>>) -> bool {
        exists|d: Seq<char>| self.deps(x).contains(d) && s.contains(d)
    }

    /// Every symbol of `s` is in the graph and depends on some symbol of `s`.
    pub open spec fn closed_under_deps(&self, s: Set<Seq<char>>) -> bool {
        &&& exists|x: Seq<char>| s.contains(x)
        &&& forall|x: Seq<char>| #[trigger] s.contains(x) ==> self.is_node(x) && self.has_dep_in(x, s)
    }

    /// The graph has a dependency cycle: some non-empty set of symbols in which
    /// every symbol depends on a symbol of the same set.
    pub open spec fn has_cycle(&self) -> bool {
        exists|s: Set<Seq<char>>| self.closed_under_deps(s)
    }

    /// `p` is a cycle: at least two entries, consecutive entries joined by an
    /// edge, and the last entry equal to the first.
    pub open spec fn is_cycle_path(&self, p: Seq<Seq<char>>) -> bool {
        &&& p.len() >= 2
        &&& p[0] == p.last()
        &&& forall|i: int| 0 <= i < p.len() ==> self.is_node(#[trigger] p[i])
        &&& forall|i: int| 0 <= i < p.len() - 1 ==> self.deps(#[trigger] p[i]).contains(p[i + 1])
    }

    /// `p` is a simple cycle: a cycle path whose entries, but for the last,
    /// are distinct.
    pub open spec fn is_simple_cycle(&self, p: Seq<Seq<char>>) -> bool {
        self.is_cycle_path(p) && p.drop_last().no_duplicates()
    }

    /// `order` lists every symbol exactly once, each after all of its dependencies.
    pub open spec fn is_resolution_order(&self, order: Seq<Seq<char>>) -> bool {
        &&& order.no_duplicates()
        &&& order.len() == self.node_keys().len()
        &&& forall|x: Seq<char>| order.contains(x) <==> self.is_node(x)
        &&& forall|i: int, d: Seq<char>| 0 <= i < order.len() && #[trigger] self.deps(order[i]).contains(d)
            ==> exists|j: int| 0 <= j < i && order[j] == d
    }

    /// An empty graph.
    pub fn new() -> (g: DependencyGraph)
        ensures
            g.wf(),
            g.lists_distinct(),
            g.node_keys().len() == 0,
            g.global_symbols@.len() == 0,
            g.local_symbols.entries@.len() == 0,
    {
        let g = DependencyGraph {
            nodes: StringMap::new(),
            edges: StringMap::new(),
            reverse_edges: StringMap::new(),
            global_symbols: Vec::new(),
            local_symbols: CtnMap::new(),
        };
        proof {
            assert(g.edges.spec_keys() =~= g.nodes.spec_keys());
            assert(g.reverse_edges.spec_keys() =~= g.nodes.spec_keys());
        }
        g
    }

    /// Whether `symbol` is a node of the graph.
    pub fn contains_node(&self, symbol: &str) -> (res: bool)
        ensures
            res == self.is_node(symbol@),
    {
        self.nodes.contains_key(symbol)
    }
}

} // verus!

verus! {

/// A symbol that does not occur has no occurrences.
pub proof fn lemma_count_absent(s: Seq<Seq<char>>, x: Seq<char>)
    requires
        !s.contains(x),
    ensures
        count_of(s, x) == 0,
    decreases s.len(),
{
    if s.len() > 0 {
        assert(!s.drop_last().contains(x)) by {
            if s.drop_last().contains(x) {
                let i = choose|i: int| 0 <= i < s.drop_last().len() && s.drop_last()[i] == x;
                assert(s[i] == x);
            }
        }
        lemma_count_absent(s.drop_last(), x);
        assert(s[s.len() - 1] != x);
    }
}

/// Appending `y` adds one occurrence of `y` and none of anything else.
pub proof fn lemma_count_push(s: Seq<Seq<char>>, y: Seq<char>, x: Seq<char>)
    ensures
        count_of(s.push(y), x) == count_of(s, x) + if y == x { 1nat } else { 0nat },
{
    assert(s.push(y).drop_last() =~= s);
}

impl DependencyGraph {
    /// Graphs with the same three maps have the same structure.
    pub proof fn lemma_same_maps(a: &Self, b: &Self)
        requires
            a.nodes == b.nodes,
            a.edges == b.edges,
            a.reverse_edges == b.reverse_edges,
        ensures
            forall|k: Seq<char>| #[trigger] a.deps(k) == b.deps(k),
            forall|k: Seq<char>| #[trigger] a.rdeps(k) == b.rdeps(k),
            forall|k: Seq<char>| #[trigger] a.is_node(k) == b.is_node(k),
            a.node_keys() == b.node_keys(),
            a.wf() ==> b.wf(),
    {
        if a.wf() {
            assert forall|k: Seq<char>, d: Seq<char>| b.is_node(k) && #[trigger] b.deps(k).contains(d)
                implies b.is_node(d) by {
                assert(a.deps(k).contains(d));
            }
            assert forall|k: Seq<char>, d: Seq<char>| b.is_node(k) && #[trigger] b.rdeps(k).contains(d)
                implies b.is_node(d) by {
                assert(a.rdeps(k).contains(d));
            }
            assert forall|x: Seq<char>, y: Seq<char>| b.is_node(x) && b.is_node(y)
                implies #[trigger] count_of(b.deps(x), y) == count_of(b.rdeps(y), x) by {
                assert(count_of(a.deps(x), y) == count_of(a.rdeps(y), x));
            }
        }
    }

    /// Add a global or local node with a fresh id to the three maps.
    fn insert_fresh(&mut self, symbol_id: String, node: SymbolNode)
        requires
            old(self).wf(),
            !old(self).is_node(symbol_id@),
            node.symbol_id@ == symbol_id@,
        ensures
            final(self).wf(),
            final(self).node_keys() == old(self).node_keys().push(symbol_id@),
            forall|k: Seq<char>| final(self).is_node(k) <==> (old(self).is_node(k) || k == symbol_id@),
            forall|k: Seq<char>| old(self).is_node(k) ==> final(self).deps(k) == old(self).deps(k)
                && final(self).rdeps(k) == old(self).rdeps(k),
            final(self).deps(symbol_id@).len() == 0,
            final(self).rdeps(symbol_id@).len() == 0,
            final(self).nodes.at(symbol_id@) == node,
            forall|k: Seq<char>| old(self).is_node(k) ==> final(self).nodes.at(k) == old(self).nodes.at(k),
            final(self).global_symbols == old(self).global_symbols,
            final(self).local_symbols == old(self).local_symbols,
    {
        let ghost old_g = *self;
        proof {
            assert(!self.edges.has(symbol_id@));
            assert(!self.reverse_edges.has(symbol_id@));
        }
        let ghost e0 = self.edges;
        self.edges.insert(symbol_id.clone(), Vec::new());
        proof {
            assert(self.edges.entries@.subrange(0, e0.entries@.len() as int) =~= e0.entries@);
            StringMap::lemma_push_fresh(&e0, &self.edges, symbol_id@);
        }
        let ghost r0 = self.reverse_edges;
        self.reverse_edges.insert(symbol_id.clone(), Vec::new());
        proof {
            assert(self.reverse_edges.entries@.subrange(0, r0.entries@.len() as int) =~= r0.entries@);
            StringMap::lemma_push_fresh(&r0, &self.reverse_edges, symbol_id@);
        }
        let ghost n0 = self.nodes;
        self.nodes.insert(symbol_id, node);
        proof {
            assert(self.nodes.entries@.subrange(0, n0.entries@.len() as int) =~= n0.entries@);
            StringMap::lemma_push_fresh(&n0, &self.nodes, node.symbol_id@);
            let id = node.symbol_id@;
            assert(self.deps(id) =~= Seq::<Seq<char>>::empty());
            assert(self.rdeps(id) =~= Seq::<Seq<char>>::empty());
            assert forall|k: Seq<char>, d: Seq<char>| self.is_node(k) && #[trigger] self.deps(k).contains(d)
                implies self.is_node(d) by {
                if k != id {
                    assert(old_g.deps(k).contains(d));
                }
            }
            assert forall|k: Seq<char>, d: Seq<char>| self.is_node(k) && #[trigger] self.rdeps(k).contains(d)
                implies self.is_node(d) by {
                if k != id {
                    assert(old_g.rdeps(k).contains(d));
                }
            }
            assert forall|a: Seq<char>, b: Seq<char>| self.is_node(a) && self.is_node(b)
                implies #[trigger] count_of(self.deps(a), b) == count_of(self.rdeps(b), a) by {
                if a == id && b == id {
                } else if a == id {
                    if old_g.rdeps(b).contains(a) {
                        assert(old_g.is_node(a));
                    }
                    lemma_count_absent(old_g.rdeps(b), a);
                } else if b == id {
                    if old_g.deps(a).contains(b) {
                        assert(old_g.is_node(b));
                    }
                    lemma_count_absent(old_g.deps(a), b);
                } else {
                    assert(count_of(old_g.deps(a), b) == count_of(old_g.rdeps(b), a));
                }
            }
        }
    }

    /// Add a node; a symbol that is already present is left as it is.
    pub fn add_node(&mut self, symbol_id: String, symbol_type: SymbolType) -> (res: Result<(), ResolutionError>)
        requires
            old(self).wf(),
        ensures
            res is Ok,
            final(self).wf(),
            old(self).lists_distinct() ==> final(self).lists_distinct(),
            old(self).is_node(symbol_id@) ==> *final(self) == *old(self),
            !old(self).is_node(symbol_id@) ==> {
                &&& final(self).node_keys() == old(self).node_keys().push(symbol_id@)
                &&& forall|k: Seq<char>| old(self).is_node(k) ==> final(self).deps(k) == old(self).deps(k)
                    && final(self).rdeps(k) == old(self).rdeps(k)
                    && final(self).nodes.at(k) == old(self).nodes.at(k)
                &&& final(self).deps(symbol_id@).len() == 0
                &&& final(self).rdeps(symbol_id@).len() == 0
                &&& final(self).nodes.at(symbol_id@).symbol_id@ == symbol_id@
                &&& final(self).nodes.at(symbol_id@).symbol_type == symbol_type
                &&& final(self).nodes.at(symbol_id@).ctn_context is None
                &&& final(self).nodes.at(symbol_id@).dependencies@.len() == 0
                &&& final(self).nodes.at(symbol_id@).dependents@.len() == 0
                &&& views(final(self).global_symbols@) == (if spec_is_global(symbol_type) {
                        added_once(views(old(self).global_symbols@), symbol_id@)
                    } else {
                        views(old(self).global_symbols@)
                    })
                &&& final(self).local_symbols == old(self).local_symbols
            },
            forall|k: Seq<char>| final(self).is_node(k) <==> (old(self).is_node(k) || k == symbol_id@),
    {
        if self.nodes.contains_key(symbol_id.as_str()) {
            return Ok(());
        }
        let node = SymbolNode::new(symbol_id.clone(), symbol_type);
        self.insert_fresh(symbol_id.clone(), node);
        let ghost mid = *self;
        if symbol_type.is_global() {
            if position_in(&self.global_symbols, symbol_id.as_str()).is_none() {
                let ghost g0 = self.global_symbols@;
                self.global_symbols.push(symbol_id.clone());
                proof {
                    assert(views(self.global_symbols@) =~= views(g0).push(symbol_id@));
                    assert(views(self.global_symbols@)[g0.len() as int] == symbol_id@);
                }
            } else {
                proof {
                    let i = choose|i: int| 0 <= i < self.global_symbols@.len() && self.global_symbols@[i]@ == symbol_id@;
                    assert(views(self.global_symbols@)[i] == symbol_id@);
                }
            }
        }
        proof {
            DependencyGraph::lemma_same_maps(&mid, self);
            if old(self).lists_distinct() {
                lemma_added_once_distinct(views(old(self).global_symbols@), symbol_id@);
                assert forall|k: Seq<char>| #[trigger] self.is_node(k) implies
                    views(self.nodes.at(k).dependencies@).no_duplicates()
                    && views(self.nodes.at(k).dependents@).no_duplicates() by {
                    if k != symbol_id@ {
                        assert(old(self).is_node(k));
                    }
                }
            }
        }
        Ok(())
    }
}

} // verus!

verus! {

/// Append `x` to the list stored at position `i` of `map`.
fn push_into(map: &mut StringMap<Vec<String>>, i: usize, x: String)
    requires
        old(map).wf(),
        i < old(map).entries@.len(),
    ensures
        final(map).wf(),
        final(map).spec_keys() == old(map).spec_keys(),
        final(map).at(old(map).entries@[i as int].0@)@ == old(map).entries@[i as int].1@.push(x),
        forall|k: Seq<char>| old(map).has(k) && k != old(map).entries@[i as int].0@
            ==> final(map).at(k) == old(map).at(k),
        forall|k: Seq<char>| final(map).has(k) <==> old(map).has(k),
{
    let ghost m0 = *map;
    let (k, mut v) = map.entries.remove(i);
    v.push(x);
    map.entries.insert(i, (k, v));
    proof {
        assert forall|j: int| 0 <= j < m0.entries@.len() && j != i implies map.entries@[j] == m0.entries@[j] by {
            if j < i {
            } else {
            }
        }
        StringMap::lemma_update_at(&m0, map, i as int);
    }
}

impl DependencyGraph {
    /// Add a node local to criterion `ctn_id`; a symbol that is already
    /// present is refused.
    pub fn add_local_node(&mut self, symbol_id: String, symbol_type: SymbolType, ctn_id: CtnNodeId)
        -> (res: Result<(), ResolutionError>)
        requires
            old(self).wf(),
            old(self).local_symbols.wf(),
        ensures
            final(self).wf(),
            final(self).local_symbols.wf(),
            old(self).lists_distinct() ==> final(self).lists_distinct(),
            old(self).is_node(symbol_id@) ==> *final(self) == *old(self) && res == Err::<(), ResolutionError>(
                ResolutionError::LocalSymbolConflict { symbol: symbol_id, ctn_id }),
            !old(self).is_node(symbol_id@) ==> {
                &&& res is Ok
                &&& final(self).node_keys() == old(self).node_keys().push(symbol_id@)
                &&& forall|k: Seq<char>| old(self).is_node(k) ==> final(self).deps(k) == old(self).deps(k)
                    && final(self).rdeps(k) == old(self).rdeps(k)
                    && final(self).nodes.at(k) == old(self).nodes.at(k)
                &&& final(self).deps(symbol_id@).len() == 0
                &&& final(self).rdeps(symbol_id@).len() == 0
                &&& final(self).nodes.at(symbol_id@).symbol_id@ == symbol_id@
                &&& final(self).nodes.at(symbol_id@).symbol_type == symbol_type
                &&& final(self).nodes.at(symbol_id@).ctn_context == Some(ctn_id)
                &&& final(self).nodes.at(symbol_id@).dependencies@.len() == 0
                &&& final(self).nodes.at(symbol_id@).dependents@.len() == 0
                &&& final(self).local_symbols.has(ctn_id)
                &&& views(final(self).local_symbols.at(ctn_id)@) == (if old(self).local_symbols.has(ctn_id) {
                        added_once(views(old(self).local_symbols.at(ctn_id)@), symbol_id@)
                    } else {
                        seq![symbol_id@]
                    })
                &&& forall|c: usize| c != ctn_id ==> (final(self).local_symbols.has(c) <==> old(self).local_symbols.has(c))
                &&& forall|c: usize| c != ctn_id && old(self).local_symbols.has(c)
                    ==> final(self).local_symbols.at(c) == old(self).local_symbols.at(c)
                &&& views(final(self).local_symbols.entries@[final(self).local_symbols.index_of(ctn_id)].1@).contains(symbol_id@)
                &&& final(self).global_symbols == old(self).global_symbols
            },
    {
        if self.nodes.contains_key(symbol_id.as_str()) {
            return Err(ResolutionError::LocalSymbolConflict { symbol: symbol_id, ctn_id });
        }
        let node = SymbolNode::new_local(symbol_id.clone(), symbol_type, ctn_id);
        self.insert_fresh(symbol_id.clone(), node);
        let ghost mid = *self;
        match self.local_symbols.find(ctn_id) {
            Some(i) => {
                let (c, mut ids) = self.local_symbols.entries.remove(i);
                if position_in(&ids, symbol_id.as_str()).is_none() {
                    ids.push(symbol_id.clone());
                    proof {
                        assert(views(ids@)[ids@.len() - 1] == symbol_id@);
                    }
                } else {
                    proof {
                        let j = choose|j: int| 0 <= j < ids@.len() && ids@[j]@ == symbol_id@;
                        assert(views(ids@)[j] == symbol_id@);
                    }
                }
                let ghost ids_v = ids@;
                self.local_symbols.entries.insert(i, (c, ids));
                proof {
                    assert(crate::string_map::ctn_keys(self.local_symbols.entries@)
                        =~= crate::string_map::ctn_keys(mid.local_symbols.entries@));
                    assert(self.local_symbols.entries@[i as int].1@ == ids_v);
                    mid.local_symbols.lemma_ctn_key_at(i as int);
                    self.local_symbols.lemma_ctn_key_at(i as int);
                    assert(mid.local_symbols.entries@[i as int].0 == ctn_id);
                    assert forall|c2: usize| c2 != ctn_id && mid.local_symbols.has(c2)
                        implies self.local_symbols.at(c2) == mid.local_symbols.at(c2) by {
                        let ks = crate::string_map::ctn_keys(mid.local_symbols.entries@);
                        let j = choose|j: int| 0 <= j < ks.len() && ks[j] == c2;
                        mid.local_symbols.lemma_ctn_key_at(j);
                        self.local_symbols.lemma_ctn_key_at(j);
                        assert(j != i);
                    }
                }
            },
            None => {
                let mut ids: Vec<String> = Vec::new();
                ids.push(symbol_id.clone());
                proof {
                    assert(views(ids@)[0] == symbol_id@);
                }
                let ghost ids_v = ids@;
                self.local_symbols.insert(ctn_id, ids);
                proof {
                    let ks = crate::string_map::ctn_keys(self.local_symbols.entries@);
                    assert(ks[ks.len() - 1] == ctn_id);
                    assert(ks.contains(ctn_id));
                    let j = self.local_symbols.index_of(ctn_id);
                    assert(0 <= j < ks.len() && ks[j] == ctn_id);
                    assert(j == ks.len() - 1);
                }
            },
        }
        proof {
            DependencyGraph::lemma_same_maps(&mid, self);
            if old(self).lists_distinct() {
                assert forall|k: Seq<char>| #[trigger] self.is_node(k) implies
                    views(self.nodes.at(k).dependencies@).no_duplicates()
                    && views(self.nodes.at(k).dependents@).no_duplicates() by {
                    if k != symbol_id@ {
                        assert(old(self).is_node(k));
                    }
                }
                assert(views(self.local_symbols.at(ctn_id)@) == (if old(self).local_symbols.has(ctn_id) {
                        added_once(views(old(self).local_symbols.at(ctn_id)@), symbol_id@)
                    } else {
                        seq![symbol_id@]
                    }));
                assert(forall|c: usize| c != ctn_id ==> (self.local_symbols.has(c) <==> old(self).local_symbols.has(c)));
                assert(forall|c: usize| c != ctn_id && old(self).local_symbols.has(c)
                    ==> self.local_symbols.at(c) == old(self).local_symbols.at(c));
                assert forall|c: usize| #[trigger] self.local_symbols.has(c) implies
                    views(self.local_symbols.at(c)@).no_duplicates() by {
                    if c == ctn_id {
                        if old(self).local_symbols.has(ctn_id) {
                            lemma_added_once_distinct(views(old(self).local_symbols.at(ctn_id)@), symbol_id@);
                        }
                    } else {
                        assert(old(self).local_symbols.has(c));
                    }
                }
            }
        }
        Ok(())
    }

    /// Add the edge `from -> to`: `from` depends on `to`. Both symbols must be
    /// in the graph.
    pub fn add_dependency(&mut self, from: &str, to: &str) -> (res: Result<(), ResolutionError>)
        requires
            old(self).wf(),
        ensures
            final(self).wf(),
            old(self).lists_distinct() ==> final(self).lists_distinct(),
            res is Ok <==> (old(self).is_node(from@) && old(self).is_node(to@)),
            match res {
                Ok(()) => {
                    &&& final(self).node_keys() == old(self).node_keys()
                    &&& forall|k: Seq<char>| final(self).is_node(k) <==> old(self).is_node(k)
                    &&& final(self).deps(from@) == old(self).deps(from@).push(to@)
                    &&& final(self).rdeps(to@) == old(self).rdeps(to@).push(from@)
                    &&& forall|k: Seq<char>| k != from@ ==> final(self).deps(k) == old(self).deps(k)
                    &&& forall|k: Seq<char>| k != to@ ==> final(self).rdeps(k) == old(self).rdeps(k)
                    &&& node_fields_kept(old(self).nodes.at(from@), final(self).nodes.at(from@))
                    &&& node_fields_kept(old(self).nodes.at(to@), final(self).nodes.at(to@))
                    &&& views(final(self).nodes.at(from@).dependencies@)
                        == added_once(views(old(self).nodes.at(from@).dependencies@), to@)
                    &&& views(final(self).nodes.at(to@).dependents@)
                        == added_once(views(old(self).nodes.at(to@).dependents@), from@)
                    &&& old(self).lists_distinct() ==> count_of(views(final(self).nodes.at(from@).dependencies@), to@) == 1
                        && count_of(views(final(self).nodes.at(to@).dependents@), from@) == 1
                    &&& from@ != to@ ==> final(self).nodes.at(from@).dependents@ == old(self).nodes.at(from@).dependents@
                        && final(self).nodes.at(to@).dependencies@ == old(self).nodes.at(to@).dependencies@
                    &&& forall|k: Seq<char>| old(self).is_node(k) && k != from@ && k != to@
                        ==> final(self).nodes.at(k) == old(self).nodes.at(k)
                    &&& final(self).global_symbols == old(self).global_symbols
                    &&& final(self).local_symbols == old(self).local_symbols
                },
                Err(ResolutionError::DependencyGraphCorrupted { details }) => {
                    &&& *final(self) == *old(self)
                    &&& if !old(self).is_node(from@) {
                        details@ == "Dependent symbol '"@ + from@ + "' not found when adding dependency on '"@
                            + to@ + "'"@
                    } else {
                        details@ == "Dependency symbol '"@ + to@ + "' not found when adding dependency from '"@
                            + from@ + "'"@
                    }
                },
                Err(_) => false,
            },
    {
        let fi = match self.nodes.find(from) {
            Some(i) => i,
            None => {
                return Err(ResolutionError::DependencyGraphCorrupted {
                    details: concat5("Dependent symbol '", from, "' not found when adding dependency on '", to, "'"),
                });
            },
        };
        let ti = match self.nodes.find(to) {
            Some(i) => i,
            None => {
                return Err(ResolutionError::DependencyGraphCorrupted {
                    details: concat5("Dependency symbol '", to, "' not found when adding dependency from '", from, "'"),
                });
            },
        };
        let ghost g0 = *self;
        proof {
            self.nodes.lemma_key_at(fi as int);
            self.nodes.lemma_key_at(ti as int);
            assert(self.edges.spec_keys()[fi as int] == self.nodes.spec_keys()[fi as int]);
            assert(self.reverse_edges.spec_keys()[ti as int] == self.nodes.spec_keys()[ti as int]);
            self.edges.lemma_key_at(fi as int);
            self.reverse_edges.lemma_key_at(ti as int);
        }
        push_into(&mut self.edges, fi, String::from_str(to));
        push_into(&mut self.reverse_edges, ti, String::from_str(from));
        let ghost n0 = self.nodes;
        let (k1, mut n1) = self.nodes.entries.remove(fi);
        let ghost n1_old = n1;
        n1.add_dependency(String::from_str(to));
        let ghost n1_new = n1;
        self.nodes.entries.insert(fi, (k1, n1));
        let ghost n1s = self.nodes;
        proof {
            assert(n1s.entries@ =~= n0.entries@.update(fi as int, (k1, n1_new)));
            StringMap::lemma_update_at(&n0, &n1s, fi as int);
            assert(n1_old == n0.at(from@));
        }
        let (k2, mut n2) = self.nodes.entries.remove(ti);
        let ghost n2_old = n2;
        n2.add_dependent(String::from_str(from));
        let ghost n2_new = n2;
        self.nodes.entries.insert(ti, (k2, n2));
        proof {
            assert(self.nodes.entries@ =~= n1s.entries@.update(ti as int, (k2, n2_new)));
            StringMap::lemma_update_at(&n1s, &self.nodes, ti as int);
            assert(n2_old == n1s.at(to@));
            assert(n1s.entries@[ti as int].0@ == to@);
        }
        proof {
            assert(crate::string_map::entry_keys(n1s.entries@) =~= crate::string_map::entry_keys(n0.entries@));
            assert(crate::string_map::entry_keys(self.nodes.entries@) =~= crate::string_map::entry_keys(n0.entries@));
            assert(self.nodes.spec_keys() == g0.nodes.spec_keys());
            assert forall|k: Seq<char>| self.is_node(k) <==> g0.is_node(k) by {}
            assert(views(self.edges.at(from@)@) =~= views(g0.edges.at(from@)@).push(to@));
            assert(views(self.reverse_edges.at(to@)@) =~= views(g0.reverse_edges.at(to@)@).push(from@));
            assert(self.deps(from@) == g0.deps(from@).push(to@));
            assert(self.rdeps(to@) == g0.rdeps(to@).push(from@));
            assert forall|k: Seq<char>| k != from@ implies self.deps(k) == g0.deps(k) by {}
            assert forall|k: Seq<char>| k != to@ implies self.rdeps(k) == g0.rdeps(k) by {}
            assert forall|k: Seq<char>, d: Seq<char>| self.is_node(k) && #[trigger] self.deps(k).contains(d)
                implies self.is_node(d) by {
                if k == from@ {
                    if d != to@ {
                        let j = choose|j: int| 0 <= j < self.deps(k).len() && self.deps(k)[j] == d;
                        assert(g0.deps(k)[j] == d);
                        assert(g0.deps(k).contains(d));
                    }
                } else {
                    assert(g0.deps(k).contains(d));
                }
            }
            assert forall|k: Seq<char>, d: Seq<char>| self.is_node(k) && #[trigger] self.rdeps(k).contains(d)
                implies self.is_node(d) by {
                if k == to@ {
                    if d != from@ {
                        let j = choose|j: int| 0 <= j < self.rdeps(k).len() && self.rdeps(k)[j] == d;
                        assert(g0.rdeps(k)[j] == d);
                        assert(g0.rdeps(k).contains(d));
                    }
                } else {
                    assert(g0.rdeps(k).contains(d));
                }
            }
            assert forall|a: Seq<char>, b: Seq<char>| self.is_node(a) && self.is_node(b)
                implies #[trigger] count_of(self.deps(a), b) == count_of(self.rdeps(b), a) by {
                assert(count_of(g0.deps(a), b) == count_of(g0.rdeps(b), a));
                if a == from@ {
                    lemma_count_push(g0.deps(a), to@, b);
                }
                if b == to@ {
                    lemma_count_push(g0.rdeps(b), from@, a);
                }
            }
            assert(views(self.nodes.at(from@).dependencies@)
                == added_once(views(g0.nodes.at(from@).dependencies@), to@));
            assert(views(self.nodes.at(to@).dependents@)
                == added_once(views(g0.nodes.at(to@).dependents@), from@));
            assert(from@ != to@ ==> self.nodes.at(from@).dependents@ == g0.nodes.at(from@).dependents@
                && self.nodes.at(to@).dependencies@ == g0.nodes.at(to@).dependencies@);
            assert(forall|k: Seq<char>| g0.is_node(k) && k != from@ && k != to@
                ==> self.nodes.at(k) == g0.nodes.at(k));
            if g0.lists_distinct() {
                assert(g0.is_node(from@) && g0.is_node(to@));
                lemma_added_once_distinct(views(g0.nodes.at(from@).dependencies@), to@);
                lemma_added_once_distinct(views(g0.nodes.at(to@).dependents@), from@);
                assert forall|k: Seq<char>| #[trigger] self.is_node(k) implies
                    views(self.nodes.at(k).dependencies@).no_duplicates()
                    && views(self.nodes.at(k).dependents@).no_duplicates() by {
                    assert(g0.is_node(k));
                    if k != from@ && k != to@ {
                        assert(self.nodes.at(k) == g0.nodes.at(k));
                    }
                }
                lemma_count_distinct(views(self.nodes.at(from@).dependencies@), to@);
                lemma_count_distinct(views(self.nodes.at(to@).dependents@), from@);
            }
        }
        Ok(())
    }
}

} // verus!

verus! {

/// A list without repetitions drawn from another such list `keys` is no
/// longer than `keys`; if it is as long it holds every key, and if it is
/// shorter some key is missing from it.
pub proof fn lemma_distinct_subseq<A>(q: Seq<A>, keys: Seq<A>)
    requires
        q.no_duplicates(),
        keys.no_duplicates(),
        forall|i: int| 0 <= i < q.len() ==> keys.contains(#[trigger] q[i]),
    ensures
        q.len() <= keys.len(),
        q.len() == keys.len() ==> forall|i: int| 0 <= i < keys.len() ==> q.contains(#[trigger] keys[i]),
        q.len() < keys.len() ==> exists|i: int| 0 <= i < keys.len() && !q.contains(#[trigger] keys[i]),
    decreases keys.len(),
{
    if keys.len() == 0 {
        if q.len() > 0 {
            assert(keys.contains(q[0]));
        }
    } else {
        let k = keys.last();
        let rest = keys.drop_last();
        assert(rest.no_duplicates());
        if q.contains(k) {
            let idx = choose|idx: int| 0 <= idx < q.len() && q[idx] == k;
            let q2 = q.remove(idx);
            assert(q2.no_duplicates()) by {
                assert forall|a: int, b: int| 0 <= a < q2.len() && 0 <= b < q2.len() && a != b
                    implies q2[a] != q2[b] by {
                    let a1 = if a < idx { a } else { a + 1 };
                    let b1 = if b < idx { b } else { b + 1 };
                    assert(q2[a] == q[a1] && q2[b] == q[b1]);
                }
            }
            assert forall|i: int| 0 <= i < q2.len() implies rest.contains(#[trigger] q2[i]) by {
                let i1 = if i < idx { i } else { i + 1 };
                assert(q2[i] == q[i1]);
                assert(keys.contains(q[i1]));
                let j = choose|j: int| 0 <= j < keys.len() && keys[j] == q[i1];
                if j == keys.len() - 1 {
                    assert(q[i1] == k);
                    assert(i1 != idx);
                } else {
                    assert(rest[j] == q[i1]);
                }
            }
            lemma_distinct_subseq(q2, rest);
            if q.len() == keys.len() {
                assert forall|i: int| 0 <= i < keys.len() implies q.contains(#[trigger] keys[i]) by {
                    if i == keys.len() - 1 {
                    } else {
                        assert(rest[i] == keys[i]);
                        assert(q2.contains(rest[i]));
                        let j = choose|j: int| 0 <= j < q2.len() && q2[j] == rest[i];
                        let j1 = if j < idx { j } else { j + 1 };
                        assert(q[j1] == keys[i]);
                    }
                }
            }
            if q.len() < keys.len() {
                let i = choose|i: int| 0 <= i < rest.len() && !q2.contains(#[trigger] rest[i]);
                assert(keys[i] == rest[i]);
                assert(!q.contains(keys[i])) by {
                    if q.contains(keys[i]) {
                        let j = choose|j: int| 0 <= j < q.len() && q[j] == keys[i];
                        assert(keys[i] != k) by {
                            assert(keys[keys.len() - 1] == k);
                        }
                        assert(j != idx);
                        let j2 = if j < idx { j } else { j - 1 };
                        assert(q2[j2] == q[j]);
                    }
                }
            }
        } else {
            assert forall|i: int| 0 <= i < q.len() implies rest.contains(#[trigger] q[i]) by {
                assert(keys.contains(q[i]));
                let j = choose|j: int| 0 <= j < keys.len() && keys[j] == q[i];
                if j == keys.len() - 1 {
                    assert(q.contains(k));
                } else {
                    assert(rest[j] == q[i]);
                }
            }
            lemma_distinct_subseq(q, rest);
            assert(!q.contains(keys[keys.len() - 1]));
        }
    }
}

/// A prefix has no more occurrences than the whole.
pub proof fn lemma_count_prefix_le(s: Seq<Seq<char>>, j: int, x: Seq<char>)
    requires
        0 <= j <= s.len(),
    ensures
        count_of(s.subrange(0, j), x) <= count_of(s, x),
    decreases s.len(),
{
    if j == s.len() {
        assert(s.subrange(0, j) =~= s);
    } else {
        assert(s.drop_last().subrange(0, j) =~= s.subrange(0, j));
        lemma_count_prefix_le(s.drop_last(), j, x);
    }
}

/// Extending a prefix by one entry.
pub proof fn lemma_count_prefix_step(s: Seq<Seq<char>>, j: int, x: Seq<char>)
    requires
        0 <= j < s.len(),
    ensures
        count_of(s.subrange(0, j + 1), x) == count_of(s.subrange(0, j), x) + if s[j] == x { 1nat } else { 0nat },
{
    assert(s.subrange(0, j + 1).drop_last() =~= s.subrange(0, j));
}

/// Every occurrence of a symbol outside `p` is counted outside `p`.
pub proof fn lemma_count_le_outside(s: Seq<Seq<char>>, p: Seq<Seq<char>>, c: Seq<char>)
    requires
        !p.contains(c),
    ensures
        count_of(s, c) <= count_outside(s, p),
    decreases s.len(),
{
    if s.len() > 0 {
        lemma_count_le_outside(s.drop_last(), p, c);
    }
}

/// Adding `c` to `p` removes exactly the occurrences of `c` from those counted outside.
pub proof fn lemma_outside_push(s: Seq<Seq<char>>, p: Seq<Seq<char>>, c: Seq<char>)
    requires
        !p.contains(c),
    ensures
        count_outside(s, p.push(c)) + count_of(s, c) == count_outside(s, p),
    decreases s.len(),
{
    if s.len() > 0 {
        lemma_outside_push(s.drop_last(), p, c);
        let e = s.last();
        if e == c {
            assert(p.push(c)[p.len() as int] == c);
        } else {
            if p.push(c).contains(e) {
                let i = choose|i: int| 0 <= i < p.push(c).len() && p.push(c)[i] == e;
                assert(p[i] == e);
            }
            if p.contains(e) {
                let i = choose|i: int| 0 <= i < p.len() && p[i] == e;
                assert(p.push(c)[i] == e);
            }
        }
    }
}

/// Nothing counted outside `p` means every entry is in `p`; something
/// counted outside means some entry is not.
pub proof fn lemma_outside_zero(s: Seq<Seq<char>>, p: Seq<Seq<char>>)
    ensures
        count_outside(s, p) == 0 ==> forall|x: Seq<char>| s.contains(x) ==> p.contains(x),
        count_outside(s, p) > 0 ==> exists|x: Seq<char>| s.contains(x) && !p.contains(x),
    decreases s.len(),
{
    if s.len() > 0 {
        lemma_outside_zero(s.drop_last(), p);
        if count_outside(s, p) == 0 {
            assert forall|x: Seq<char>| s.contains(x) implies p.contains(x) by {
                let i = choose|i: int| 0 <= i < s.len() && s[i] == x;
                if i < s.len() - 1 {
                    assert(s.drop_last()[i] == x);
                }
            }
        }
        if count_outside(s, p) > 0 {
            if !p.contains(s.last()) {
                assert(s.contains(s.last()));
            } else {
                let x = choose|x: Seq<char>| s.drop_last().contains(x) && !p.contains(x);
                let i = choose|i: int| 0 <= i < s.drop_last().len() && s.drop_last()[i] == x;
                assert(s[i] == x);
            }
        }
    }
}

/// With nothing in `p`, every entry is counted.
pub proof fn lemma_outside_empty(s: Seq<Seq<char>>)
    ensures
        count_outside(s, Seq::empty()) == s.len(),
    decreases s.len(),
{
    if s.len() > 0 {
        lemma_outside_empty(s.drop_last());
    }
}

impl DependencyGraph {
    /// A graph that has a resolution order has no cycle.
    pub proof fn lemma_order_acyclic(&self, order: Seq<Seq<char>>)
        requires
            self.is_resolution_order(order),
        ensures
            !self.has_cycle(),
    {
        if self.has_cycle() {
            let s = choose|s: Set<Seq<char>>| self.closed_under_deps(s);
            let x = choose|x: Seq<char>| s.contains(x);
            assert(s.contains(x) && self.is_node(x)) by {
                assert(self.closed_under_deps(s));
            }
            assert(forall|x: Seq<char>| #[trigger] s.contains(x) ==> self.has_dep_in(x, s)) by {
                assert(self.closed_under_deps(s));
            }
            assert(forall|i: int, d: Seq<char>| 0 <= i < order.len() && #[trigger] self.deps(order[i]).contains(d)
                ==> exists|j: int| 0 <= j < i && order[j] == d) by {
                assert(self.is_resolution_order(order));
            }
            self.lemma_order_acyclic_step(order, s, order.len() as int);
            assert(order.contains(x)) by {
                assert(self.is_resolution_order(order));
            }
            let i = choose|i: int| 0 <= i < order.len() && order[i] == x;
            assert(!s.contains(order[i]));
        }
    }

    proof fn lemma_order_acyclic_step(&self, order: Seq<Seq<char>>, s: Set<Seq<char>>, k: int)
        requires
            forall|i: int, d: Seq<char>| 0 <= i < order.len() && #[trigger] self.deps(order[i]).contains(d)
                ==> exists|j: int| 0 <= j < i && order[j] == d,
            forall|x: Seq<char>| #[trigger] s.contains(x) ==> self.has_dep_in(x, s),
            0 <= k <= order.len(),
        ensures
            forall|i: int| 0 <= i < k ==> !s.contains(#[trigger] order[i]),
        decreases k,
    {
        if k > 0 {
            self.lemma_order_acyclic_step(order, s, k - 1);
            let x = order[k - 1];
            if s.contains(x) {
                assert(self.has_dep_in(x, s));
                reveal(DependencyGraph::has_dep_in);
                let d = choose|d: Seq<char>| self.deps(x).contains(d) && s.contains(d);
                assert(self.deps(order[k - 1]).contains(d));
                let j = choose|j: int| 0 <= j < k - 1 && order[j] == d;
                assert(!s.contains(order[j]));
            }
        }
    }

    /// A cycle path shows a cycle.
    pub proof fn lemma_path_cycle(&self, p: Seq<Seq<char>>)
        requires
            self.is_cycle_path(p),
        ensures
            self.has_cycle(),
    {
        let s = p.to_set();
        assert(s.contains(p[0]));
        assert forall|x: Seq<char>| #[trigger] s.contains(x) implies self.is_node(x) && self.has_dep_in(x, s) by {
            let i = choose|i: int| 0 <= i < p.len() && p[i] == x;
            let i2 = if i == p.len() - 1 { 0 } else { i };
            assert(p[i2] == x);
            assert(self.deps(p[i2]).contains(p[i2 + 1]));
            assert(s.contains(p[i2 + 1]));
            reveal(DependencyGraph::has_dep_in);
        }
        assert(self.closed_under_deps(s));
    }

    /// The dependency relation: `a` depends on `b`.
    pub open spec fn dep_relation(&self) -> spec_fn(Seq<char>, Seq<char>) -> bool {
        |a: Seq<char>, b: Seq<char>| self.deps(a).contains(b)
    }

    /// A dependency cycle of the graph is a cycle of its dependency relation.
    pub proof fn lemma_relation_cycle(&self)
        ensures
            self.has_cycle() ==> relation_has_cycle(self.dep_relation()),
    {
        if self.has_cycle() {
            let s = choose|s: Set<Seq<char>>| self.closed_under_deps(s);
            let succ = self.dep_relation();
            assert forall|x: Seq<char>| #[trigger] s.contains(x) implies has_succ_in(succ, x, s) by {
                assert(self.has_dep_in(x, s));
                reveal(DependencyGraph::has_dep_in);
                reveal(has_succ_in);
                let d = choose|d: Seq<char>| self.deps(x).contains(d) && s.contains(d);
                assert(succ(x, d));
            }
            assert(is_cycle_set(succ, s));
        }
    }

    /// A dependency of `x` in `s` shows that `x` has a dependency in `s`.
    proof fn lemma_dep_in(&self, x: Seq<char>, s: Set<Seq<char>>, d: Seq<char>)
        requires
            self.deps(x).contains(d),
            s.contains(d),
        ensures
            self.has_dep_in(x, s),
    {
        reveal(DependencyGraph::has_dep_in);
    }

    /// A cycle of the dependency relation is a dependency cycle of the graph.
    pub proof fn lemma_cycle_of_relation(&self)
        requires
            self.edges.spec_keys() == self.nodes.spec_keys(),
        ensures
            relation_has_cycle(self.dep_relation()) ==> self.has_cycle(),
    {
        if relation_has_cycle(self.dep_relation()) {
            let succ = self.dep_relation();
            let s = choose|s: Set<Seq<char>>| is_cycle_set(succ, s);
            assert(is_cycle_set(succ, s));
            assert forall|x: Seq<char>| #[trigger] s.contains(x) implies self.is_node(x) && self.has_dep_in(x, s) by {
                let d = lemma_succ_witness(succ, x, s);
                assert(self.deps(x).contains(d));
                assert(self.edges.has(x));
                assert(self.is_node(x));
                self.lemma_dep_in(x, s, d);
            }
            assert(self.closed_under_deps(s));
        }
    }
}

} // verus!

verus! {

/// A successor of `x` in `s`.
proof fn lemma_succ_witness(succ: spec_fn(Seq<char>, Seq<char>) -> bool, x: Seq<char>, s: Set<Seq<char>>) -> (y: Seq<char>)
    requires
        has_succ_in(succ, x, s),
    ensures
        s.contains(y) && succ(x, y),
{
    reveal(has_succ_in);
    choose|y: Seq<char>| s.contains(y) && succ(x, y)
}

/// The first position of `x` in `p`.
pub open spec fn first_index(p: Seq<Seq<char>>, x: Seq<char>) -> int {
    choose|i: int| 0 <= i < p.len() && p[i] == x && forall|j: int| 0 <= j < i ==> p[j] != x
}

/// The depth-first search for a cycle that enters `node`, with the symbols
/// `visited` and the path `path` before: the cycle found, if any, and the
/// visited symbols after. `fuel` bounds the depth of the search.
pub open spec fn dfs_from(g: DependencyGraph, node: Seq<char>, visited: Seq<Seq<char>>, path: Seq<Seq<char>>, fuel: nat)
    -> (Option<Seq<Seq<char>>>, Seq<Seq<char>>)
    decreases fuel, 0int,
{
    if fuel == 0 {
        (None, visited)
    } else {
        dfs_deps(g, g.deps(node), 0, visited.push(node), path.push(node), (fuel - 1) as nat)
    }
}

/// The search through the dependencies `deps` of the last symbol of `path`,
/// from the `k`-th on: an unvisited dependency is entered, one on the path
/// closes the cycle from its first position on the path, and any other is
/// passed over.
pub open spec fn dfs_deps(g: DependencyGraph, deps: Seq<Seq<char>>, k: int, visited: Seq<Seq<char>>,
    path: Seq<Seq<char>>, fuel: nat) -> (Option<Seq<Seq<char>>>, Seq<Seq<char>>)
    decreases fuel, deps.len() - k,
{
    if k < 0 || k >= deps.len() {
        (None, visited)
    } else {
        let dep = deps[k];
        if !visited.contains(dep) {
            let r = dfs_from(g, dep, visited, path, fuel);
            if r.0 is Some {
                r
            } else {
                dfs_deps(g, deps, k + 1, r.1, path, fuel)
            }
        } else if path.contains(dep) {
            (Some(path.subrange(first_index(path, dep), path.len() as int).push(dep)), visited)
        } else {
            dfs_deps(g, deps, k + 1, visited, path, fuel)
        }
    }
}

/// The search from the `i`-th of `keys` on: each symbol not yet visited
/// starts a search with an empty path; the first cycle found is the result.
pub open spec fn dfs_roots(g: DependencyGraph, keys: Seq<Seq<char>>, i: int, visited: Seq<Seq<char>>, fuel: nat)
    -> Option<Seq<Seq<char>>>
    decreases keys.len() - i,
{
    if i < 0 || i >= keys.len() {
        None
    } else if visited.contains(keys[i]) {
        dfs_roots(g, keys, i + 1, visited, fuel)
    } else {
        let r = dfs_from(g, keys[i], visited, Seq::empty(), fuel);
        if r.0 is Some {
            r.0
        } else {
            dfs_roots(g, keys, i + 1, r.1, fuel)
        }
    }
}

/// The cycle that a depth-first search of the graph finds, taking the
/// symbols in insertion order and the dependencies of each in the order
/// they were added; `None` if it finds none.
pub open spec fn found_cycle(g: DependencyGraph) -> Option<Seq<Seq<char>>> {
    dfs_roots(g, g.node_keys(), 0, Seq::empty(), g.node_keys().len())
}

/// A list of symbols joined by edges: each entry depends on the next.
pub open spec fn is_chain(g: DependencyGraph, p: Seq<Seq<char>>) -> bool {
    &&& forall|i: int| 0 <= i < p.len() ==> g.is_node(#[trigger] p[i])
    &&& forall|i: int| 0 <= i < p.len() - 1 ==> g.deps(#[trigger] p[i]).contains(p[i + 1])
}

impl DependencyGraph {
    /// The symbols that `symbol` depends on, one entry per edge (empty for an
    /// unknown symbol).
    pub fn get_dependencies(&self, symbol: &str) -> (res: Vec<String>)
        requires
            self.wf(),
        ensures
            views(res@) == self.deps(symbol@),
    {
        match self.edges.get(symbol) {
            Some(v) => {
                let r = crate::types::filter::clone_strings(v);
                r
            },
            None => {
                let r: Vec<String> = Vec::new();
                assert(views(r@) =~= Seq::<Seq<char>>::empty());
                r
            },
        }
    }

    /// The symbols that depend on `symbol`, one entry per edge (empty for an
    /// unknown symbol).
    pub fn get_dependents(&self, symbol: &str) -> (res: Vec<String>)
        requires
            self.wf(),
        ensures
            views(res@) == self.rdeps(symbol@),
    {
        match self.reverse_edges.get(symbol) {
            Some(v) => {
                let r = crate::types::filter::clone_strings(v);
                r
            },
            None => {
                let r: Vec<String> = Vec::new();
                assert(views(r@) =~= Seq::<Seq<char>>::empty());
                r
            },
        }
    }

    /// Depth-first search from `node` for a cycle. `path` is the current
    /// search path and `rec_stack` holds the same symbols.
    fn dfs_cycle_detect(
        &self,
        node: &str,
        visited: &mut Vec<String>,
        rec_stack: &mut Vec<String>,
        path: &mut Vec<String>,
        Ghost(fuel): Ghost<nat>,
    ) -> (res: Option<Vec<String>>)
        requires
            self.wf(),
            fuel >= self.node_keys().len() - old(visited)@.len(),
            self.is_node(node@),
            !views(old(visited)@).contains(node@),
            views(old(visited)@).no_duplicates(),
            forall|i: int| 0 <= i < old(visited)@.len() ==> self.is_node(#[trigger] views(old(visited)@)[i]),
            views(old(rec_stack)@) == views(old(path)@),
            views(old(path)@).no_duplicates(),
            is_chain(*self, views(old(path)@)),
            old(path)@.len() > 0 ==> self.deps(views(old(path)@).last()).contains(node@),
            forall|i: int| 0 <= i < old(path)@.len() ==> views(old(visited)@).contains(#[trigger] views(old(path)@)[i]),
            closed_under(self.dep_relation(), finished(views(old(visited)@), views(old(path)@))),
            acyclic_within(self.dep_relation(), finished(views(old(visited)@), views(old(path)@))),
        ensures
            match res {
                Some(c) => self.is_simple_cycle(views(c@))
                    && dfs_from(*self, node@, views(old(visited)@), views(old(path)@), fuel).0 == Some(views(c@)),
                None => {
                    &&& dfs_from(*self, node@, views(old(visited)@), views(old(path)@), fuel)
                        == (None::<Seq<Seq<char>>>, views(final(visited)@))
                    &&& views(final(path)@) == views(old(path)@)
                    &&& views(final(rec_stack)@) == views(old(rec_stack)@)
                    &&& views(final(visited)@).no_duplicates()
                    &&& forall|i: int| 0 <= i < final(visited)@.len() ==> self.is_node(#[trigger] views(final(visited)@)[i])
                    &&& old(visited)@.len() < final(visited)@.len()
                    &&& views(final(visited)@).subrange(0, old(visited)@.len() as int) == views(old(visited)@)
                    &&& views(final(visited)@).contains(node@)
                    &&& closed_under(self.dep_relation(), finished(views(final(visited)@), views(final(path)@)))
                    &&& acyclic_within(self.dep_relation(), finished(views(final(visited)@), views(final(path)@)))
                },
            },
        decreases self.node_keys().len() - old(visited)@.len(),
    {
        proof {
            lemma_distinct_subseq(views(visited@), self.node_keys());
            assert(self.node_keys().contains(node@));
            if visited@.len() == self.node_keys().len() {
                let j = choose|j: int| 0 <= j < self.node_keys().len() && self.node_keys()[j] == node@;
                assert(views(visited@).contains(self.node_keys()[j]));
            }
        }
        let ghost v0 = views(visited@);
        let ghost p0 = views(path@);
        let ghost total = dfs_from(*self, node@, v0, p0, fuel);
        proof {
            lemma_distinct_subseq(v0, self.node_keys());
            assert(fuel >= 1);
            assert(total == dfs_deps(*self, self.deps(node@), 0, v0.push(node@), p0.push(node@), (fuel - 1) as nat));
        }
        visited.push(String::from_str(node));
        rec_stack.push(String::from_str(node));
        path.push(String::from_str(node));
        proof {
            assert(views(visited@) =~= v0.push(node@));
            assert(views(path@) =~= p0.push(node@));
            assert(views(rec_stack@) =~= p0.push(node@));
            assert(views(visited@).no_duplicates()) by {
                assert forall|a: int, b: int| 0 <= a < views(visited@).len() && 0 <= b < views(visited@).len() && a != b
                    implies views(visited@)[a] != views(visited@)[b] by {
                    if a == v0.len() { assert(v0.contains(views(visited@)[b])); }
                    if b == v0.len() { assert(v0.contains(views(visited@)[a])); }
                }
            }
        }
        let ghost succ = self.dep_relation();
        let ghost p1 = p0.push(node@);
        proof {
            assert(views(visited@)[v0.len() as int] == node@);
            assert(views(visited@).subrange(0, v0.len() as int) =~= v0);
            assert(!p0.contains(node@)) by {
                if p0.contains(node@) {
                    let j = choose|j: int| 0 <= j < p0.len() && p0[j] == node@;
                    assert(v0.contains(p0[j]));
                }
            }
            assert(finished(views(visited@), p1) =~= finished(v0, p0)) by {
                assert forall|x: Seq<char>| finished(views(visited@), p1).contains(x) <==> finished(v0, p0).contains(x) by {
                    if x == node@ {
                        assert(p1[p0.len() as int] == x);
                    } else {
                        if views(visited@).contains(x) {
                            let j = choose|j: int| 0 <= j < views(visited@).len() && views(visited@)[j] == x;
                            assert(v0[j] == x);
                        }
                        if v0.contains(x) {
                            let j = choose|j: int| 0 <= j < v0.len() && v0[j] == x;
                            assert(views(visited@)[j] == x);
                        }
                        if p1.contains(x) {
                            let j = choose|j: int| 0 <= j < p1.len() && p1[j] == x;
                            assert(p0[j] == x);
                        }
                        if p0.contains(x) {
                            let j = choose|j: int| 0 <= j < p0.len() && p0[j] == x;
                            assert(p1[j] == x);
                        }
                    }
                }
            }
            assert forall|i: int| 0 <= i < path@.len() implies views(visited@).contains(#[trigger] views(path@)[i]) by {
                if i < p0.len() {
                    assert(views(path@)[i] == p0[i]);
                    assert(v0.contains(p0[i]));
                    let j = choose|j: int| 0 <= j < v0.len() && v0[j] == p0[i];
                    assert(views(visited@)[j] == p0[i]);
                } else {
                    assert(views(path@)[i] == node@);
                    assert(views(visited@)[v0.len() as int] == node@);
                }
            }
        }
        let deps = self.get_dependencies(node);
        let mut k: usize = 0;
        while k < deps.len()
            invariant
                self.wf(),
                self.is_node(node@),
                views(deps@) == self.deps(node@),
                k <= deps@.len(),
                views(path@) == p0.push(node@),
                views(rec_stack@) == p0.push(node@),
                is_chain(*self, p0),
                p0.len() > 0 ==> self.deps(p0.last()).contains(node@),
                views(visited@).no_duplicates(),
                forall|i: int| 0 <= i < visited@.len() ==> self.is_node(#[trigger] views(visited@)[i]),
                v0.len() < visited@.len(),
                views(visited@).subrange(0, v0.len() as int) == v0,
                v0.len() == old(visited)@.len(),
                views(visited@).contains(node@),
                succ == self.dep_relation(),
                p1 == p0.push(node@),
                !p0.contains(node@),
                p0.no_duplicates(),
                forall|i: int| 0 <= i < path@.len() ==> views(visited@).contains(#[trigger] views(path@)[i]),
                closed_under(succ, finished(views(visited@), p1)),
                acyclic_within(succ, finished(views(visited@), p1)),
                forall|j: int| 0 <= j < k ==> finished(views(visited@), p1).contains(#[trigger] views(deps@)[j]),
                fuel >= 1,
                fuel - 1 >= self.node_keys().len() - visited@.len(),
                total == dfs_from(*self, node@, v0, p0, fuel),
                v0 == views(old(visited)@),
                p0 == views(old(path)@),
                dfs_deps(*self, self.deps(node@), k as int, views(visited@), p1, (fuel - 1) as nat) == total,
            decreases deps@.len() - k,
        {
            let dep = &deps[k];
            proof {
                assert(self.deps(node@).contains(dep@)) by {
                    assert(views(deps@)[k as int] == dep@);
                }
                assert(self.is_node(dep@));
                assert(is_chain(*self, p0.push(node@))) by {
                    assert forall|i: int| 0 <= i < p0.push(node@).len() - 1
                        implies self.deps(#[trigger] p0.push(node@)[i]).contains(p0.push(node@)[i + 1]) by {
                        if i < p0.len() - 1 {
                            assert(p0.push(node@)[i] == p0[i]);
                            assert(p0.push(node@)[i + 1] == p0[i + 1]);
                        } else {
                            assert(p0.push(node@)[i] == p0.last());
                        }
                    }
                }
            }
            if position_in(visited, dep.as_str()).is_none() {
                let ghost vb = views(visited@);
                proof {
                    lemma_distinct_subseq(views(visited@), self.node_keys());
                    assert(p1.no_duplicates()) by {
                        assert forall|a: int, b: int| 0 <= a < p1.len() && 0 <= b < p1.len() && a != b
                            implies p1[a] != p1[b] by {
                            if a == p0.len() { assert(p0.contains(p1[b])); }
                            if b == p0.len() { assert(p0.contains(p1[a])); }
                        }
                    }
                }
                proof {
                    assert(views(deps@)[k as int] == dep@);
                    assert(!vb.contains(dep@));
                }
                let r = self.dfs_cycle_detect(dep.as_str(), visited, rec_stack, path, Ghost((fuel - 1) as nat));
                proof {
                    let rs = dfs_from(*self, dep@, vb, p1, (fuel - 1) as nat);
                    assert(self.deps(node@)[k as int] == dep@);
                    assert(dfs_deps(*self, self.deps(node@), k as int, vb, p1, (fuel - 1) as nat)
                        == (if rs.0 is Some { rs } else {
                            dfs_deps(*self, self.deps(node@), k + 1, rs.1, p1, (fuel - 1) as nat) }));
                }
                if r.is_some() {
                    return r;
                }
                proof {
                    let va = views(visited@);
                    assert(views(visited@).subrange(0, v0.len() as int) =~= vb.subrange(0, v0.len() as int)) by {
                        assert(views(visited@).subrange(0, vb.len() as int) == vb);
                    }
                    lemma_prefix_grows(vb, va, p1);
                    assert(views(visited@).contains(node@));
                    assert(!p1.contains(dep@)) by {
                        if p1.contains(dep@) {
                            let j = choose|j: int| 0 <= j < p1.len() && p1[j] == dep@;
                            assert(views(path@)[j] == dep@);
                            assert(vb.contains(views(path@)[j]));
                        }
                    }
                    assert(finished(va, p1).contains(dep@));
                    assert forall|i: int| 0 <= i < path@.len() implies va.contains(#[trigger] views(path@)[i]) by {
                        assert(vb.contains(views(path@)[i]));
                    }
                    assert forall|j: int| 0 <= j <= k implies finished(va, p1).contains(#[trigger] views(deps@)[j]) by {
                        if j < k {
                            assert(finished(vb, p1).contains(views(deps@)[j]));
                        } else {
                            assert(views(deps@)[j] == dep@);
                        }
                    }
                }
            } else if let Some(pos) = position_in(rec_stack, dep.as_str()) {
                let mut cycle: Vec<String> = Vec::new();
                let mut m: usize = pos;
                proof {
                    assert(views(deps@)[k as int] == dep@);
                    assert(views(visited@).contains(dep@));
                    assert(p1[pos as int] == dep@) by {
                        assert(views(rec_stack@)[pos as int] == dep@);
                    }
                    assert(forall|j: int| 0 <= j < pos ==> p1[j] != dep@) by {
                        assert forall|j: int| 0 <= j < pos implies p1[j] != dep@ by {
                            assert(views(rec_stack@)[j] == rec_stack@[j]@);
                        }
                    }
                    let fi = first_index(p1, dep@);
                    assert(0 <= fi < p1.len() && p1[fi] == dep@ && forall|j: int| 0 <= j < fi ==> p1[j] != dep@);
                    assert(fi == pos);
                    assert(p1.contains(dep@));
                    assert(self.deps(node@)[k as int] == dep@);
                    assert(dfs_deps(*self, self.deps(node@), k as int, views(visited@), p1, (fuel - 1) as nat)
                        == (Some(p1.subrange(pos as int, p1.len() as int).push(dep@)), views(visited@)));
                    assert(views(path@).len() == path@.len());
                    assert(views(rec_stack@).len() == rec_stack@.len());
                    assert(views(cycle@) =~= views(path@).subrange(pos as int, pos as int));
                }
                while m < path.len()
                    invariant
                        pos <= m <= path@.len(),
                        path@.len() == rec_stack@.len(),
                        views(cycle@) == views(path@).subrange(pos as int, m as int),
                    decreases path@.len() - m,
                {
                    let ghost cb = views(cycle@);
                    cycle.push(path[m].clone());
                    proof {
                        assert(views(cycle@) =~= cb.push(views(path@)[m as int]));
                        assert(views(path@).subrange(pos as int, m + 1) =~= views(path@).subrange(pos as int, m as int).push(views(path@)[m as int]));
                    }
                    m = m + 1;
                }
                cycle.push(dep.clone());
                proof {
                    let pp = p0.push(node@);
                    let c = views(cycle@);
                    assert(c =~= pp.subrange(pos as int, pp.len() as int).push(dep@));
                    assert(pp[pos as int] == dep@) by {
                        assert(views(rec_stack@)[pos as int] == dep@);
                    }
                    assert forall|i: int| 0 <= i < c.len() implies self.is_node(#[trigger] c[i]) by {
                        if i < c.len() - 1 {
                            assert(c[i] == pp[pos + i]);
                        }
                    }
                    assert(pp.no_duplicates()) by {
                        assert forall|a: int, b: int| 0 <= a < pp.len() && 0 <= b < pp.len() && a != b
                            implies pp[a] != pp[b] by {
                            if a == p0.len() { assert(p0.contains(pp[b])); }
                            if b == p0.len() { assert(p0.contains(pp[a])); }
                        }
                    }
                    assert(c.drop_last() =~= pp.subrange(pos as int, pp.len() as int));
                    assert(c.drop_last().no_duplicates()) by {
                        assert forall|a: int, b: int| 0 <= a < c.drop_last().len() && 0 <= b < c.drop_last().len() && a != b
                            implies c.drop_last()[a] != c.drop_last()[b] by {
                            assert(c.drop_last()[a] == pp[pos + a]);
                            assert(c.drop_last()[b] == pp[pos + b]);
                        }
                    }
                    assert forall|i: int| 0 <= i < c.len() - 1 implies self.deps(#[trigger] c[i]).contains(c[i + 1]) by {
                        if i < c.len() - 2 {
                            assert(c[i] == pp[pos + i]);
                            assert(c[i + 1] == pp[pos + i + 1]);
                        } else {
                            assert(c[i] == pp[pp.len() - 1]);
                        }
                    }
                }
                return Some(cycle);
            } else {
                proof {
                    assert(views(visited@).contains(dep@));
                    assert(!p1.contains(dep@));
                    assert(views(deps@)[k as int] == dep@);
                }
            }
            k = k + 1;
        }
        let ghost vf = views(visited@);
        let ghost ff = finished(vf, p1);
        proof {
            assert forall|y: Seq<char>| #[trigger] succ(node@, y) implies ff.contains(y) by {
                assert(self.deps(node@).contains(y));
                let j = choose|j: int| 0 <= j < views(deps@).len() && views(deps@)[j] == y;
            }
            lemma_extend_finished(succ, ff, node@);
        }
        let ghost rs = views(rec_stack@);
        let ghost ps = views(path@);
        rec_stack.pop();
        path.pop();
        proof {
            assert(views(rec_stack@) =~= rs.drop_last());
            assert(views(path@) =~= ps.drop_last());
            assert(ps.drop_last() =~= p0);
            assert(finished(vf, p0) =~= ff.insert(node@)) by {
                assert forall|x: Seq<char>| finished(vf, p0).contains(x) <==> ff.insert(node@).contains(x) by {
                    if p1.contains(x) && x != node@ {
                        let j = choose|j: int| 0 <= j < p1.len() && p1[j] == x;
                        assert(p0[j] == x);
                    }
                    if p0.contains(x) {
                        let j = choose|j: int| 0 <= j < p0.len() && p0[j] == x;
                        assert(p1[j] == x);
                    }
                    if x == node@ {
                        assert(p1[p0.len() as int] == x);
                    }
                }
            }
        }
        None
    }

    /// Search the graph for a dependency cycle; a cycle found is returned as
    /// a path whose last symbol equals its first. The cycle is the one the
    /// depth-first search of `found_cycle` meets first.
    pub fn detect_cycle(&self) -> (res: Option<Vec<String>>)
        requires
            self.wf(),
        ensures
            match res {
                Some(c) => self.is_simple_cycle(views(c@)) && self.has_cycle() && found_cycle(*self) == Some(views(c@)),
                None => !self.has_cycle() && found_cycle(*self) is None,
            },
    {
        let ghost succ = self.dep_relation();
        let mut visited: Vec<String> = Vec::new();
        let mut rec_stack: Vec<String> = Vec::new();
        let mut path: Vec<String> = Vec::new();
        proof {
            assert(finished(views(visited@), views(path@)) =~= Set::<Seq<char>>::empty());
            lemma_empty_finished(succ);
            assert(views(visited@) =~= Seq::<Seq<char>>::empty());
        }
        let mut i: usize = 0;
        while i < self.nodes.len()
            invariant
                self.wf(),
                succ == self.dep_relation(),
                i <= self.nodes.entries@.len(),
                views(visited@).no_duplicates(),
                forall|j: int| 0 <= j < visited@.len() ==> self.is_node(#[trigger] views(visited@)[j]),
                rec_stack@.len() == 0,
                path@.len() == 0,
                closed_under(succ, finished(views(visited@), views(path@))),
                acyclic_within(succ, finished(views(visited@), views(path@))),
                forall|j: int| 0 <= j < i ==> views(visited@).contains(#[trigger] self.nodes.entries@[j].0@),
                dfs_roots(*self, self.node_keys(), i as int, views(visited@), self.node_keys().len()) == found_cycle(*self),
            decreases self.nodes.entries@.len() - i,
        {
            let key = &self.nodes.entries[i].0;
            proof {
                self.nodes.lemma_key_at(i as int);
                assert(views(rec_stack@) =~= views(path@));
                assert(is_chain(*self, views(path@)));
            }
            proof {
                assert(self.node_keys()[i as int] == key@);
                assert(views(path@) =~= Seq::<Seq<char>>::empty());
            }
            if position_in(&visited, key.as_str()).is_none() {
                let ghost vb = views(visited@);
                let r = self.dfs_cycle_detect(key.as_str(), &mut visited, &mut rec_stack, &mut path,
                    Ghost(self.node_keys().len()));
                if r.is_some() {
                    proof {
                        self.lemma_path_cycle(views(r.unwrap()@));
                    }
                    return r;
                }
                proof {
                    assert(views(rec_stack@).len() == 0);
                    lemma_prefix_grows(vb, views(visited@), views(path@));
                }
            } else {
                proof {
                    assert(views(visited@).contains(key@));
                }
            }
            proof {
                assert(views(visited@).contains(self.nodes.entries@[i as int].0@));
            }
            i = i + 1;
        }
        proof {
            let f = finished(views(visited@), views(path@));
            assert forall|x: Seq<char>, y: Seq<char>| #[trigger] succ(x, y) implies f.contains(x) by {
                assert(self.deps(x).contains(y));
                assert(self.edges.has(x));
                assert(self.is_node(x));
                let j = choose|j: int| 0 <= j < self.node_keys().len() && self.node_keys()[j] == x;
                self.nodes.lemma_key_at(j);
                assert(self.nodes.entries@[j].0@ == x);
                assert(views(visited@).contains(x));
            }
            lemma_no_cycle(succ, f);
            self.lemma_relation_cycle();
        }
        None
    }
}

} // verus!

verus! {

impl DependencyGraph {
    /// The edge lists at position `i` of the three maps belong to the `i`-th symbol.
    proof fn lemma_position(&self, i: int)
        requires
            self.wf(),
            0 <= i < self.nodes.entries@.len(),
        ensures
            self.is_node(self.node_keys()[i]),
            self.node_keys()[i] == self.nodes.entries@[i].0@,
            self.deps(self.node_keys()[i]) == views(self.edges.entries@[i].1@),
            self.rdeps(self.node_keys()[i]) == views(self.reverse_edges.entries@[i].1@),
    {
        self.nodes.lemma_key_at(i);
        assert(self.edges.spec_keys()[i] == self.node_keys()[i]);
        assert(self.reverse_edges.spec_keys()[i] == self.node_keys()[i]);
        self.edges.lemma_key_at(i);
        self.reverse_edges.lemma_key_at(i);
    }

    /// Every symbol is one of the keys, at some position.
    proof fn lemma_node_position(&self, k: Seq<char>) -> (i: int)
        requires
            self.wf(),
            self.is_node(k),
        ensures
            0 <= i < self.nodes.entries@.len(),
            self.node_keys()[i] == k,
    {
        choose|i: int| 0 <= i < self.node_keys().len() && self.node_keys()[i] == k
    }

    /// Order the symbols so that every symbol comes after the symbols it
    /// depends on (Kahn's algorithm), after checking for cycles: the cycle
    /// reported is the one `detect_cycle` returns, `found_cycle` of the graph.
    pub fn topological_sort(&self) -> (res: Result<Vec<String>, ResolutionError>)
        requires
            self.wf(),
        ensures
            match res {
                Ok(order) => self.is_resolution_order(views(order@)) && !self.has_cycle() && found_cycle(*self) is None,
                Err(ResolutionError::CircularDependency { cycle }) =>
                    self.is_simple_cycle(views(cycle@)) && self.has_cycle() && found_cycle(*self) == Some(views(cycle@)),
                Err(_) => false,
            },
            res is Err <==> self.has_cycle(),
    {
        if let Some(cycle) = self.detect_cycle() {
            proof {
                self.lemma_path_cycle(views(cycle@));
            }
            return Err(ResolutionError::CircularDependency { cycle });
        }
        let n = self.nodes.len();
        let ghost keys = self.node_keys();
        let mut in_degree: Vec<usize> = Vec::new();
        let mut queue: Vec<usize> = Vec::new();
        let mut i: usize = 0;
        while i < n
            invariant
                self.wf(),
                n == self.nodes.entries@.len(),
                keys == self.node_keys(),
                i <= n,
                in_degree@.len() == i,
                forall|m: int| 0 <= m < i ==> #[trigger] in_degree@[m] == count_outside(self.deps(keys[m]), Seq::empty()),
                forall|q: int| 0 <= q < queue@.len() ==> #[trigger] queue@[q] < i,
                queue@.no_duplicates(),
                forall|m: int| 0 <= m < i ==> (queue@.contains(m as usize) <==> #[trigger] in_degree@[m] == 0),
            decreases n - i,
        {
            let d = self.edges.entries[i].1.len();
            proof {
                self.lemma_position(i as int);
                lemma_outside_empty(self.deps(keys[i as int]));
            }
            let ghost q0 = queue@;
            in_degree.push(d);
            if d == 0 {
                queue.push(i);
                proof {
                    assert forall|a: int, b: int| 0 <= a < queue@.len() && 0 <= b < queue@.len() && a != b
                        implies queue@[a] != queue@[b] by {
                        if a == q0.len() { assert(queue@[b] < i); }
                        if b == q0.len() { assert(queue@[a] < i); }
                    }
                    assert(queue@[q0.len() as int] == i);
                }
            }
            proof {
                assert forall|m: int| 0 <= m < i + 1 implies (queue@.contains(m as usize) <==> #[trigger] in_degree@[m] == 0) by {
                    if m < i {
                        if queue@.contains(m as usize) && d == 0 {
                            let q = choose|q: int| 0 <= q < queue@.len() && queue@[q] == m as usize;
                            if q == q0.len() { } else { assert(q0[q] == m as usize); }
                        }
                        if q0.contains(m as usize) {
                            let q = choose|q: int| 0 <= q < q0.len() && q0[q] == m as usize;
                            assert(queue@[q] == m as usize);
                        }
                    } else {
                        if queue@.contains(m as usize) && d != 0 {
                            let q = choose|q: int| 0 <= q < queue@.len() && queue@[q] == m as usize;
                            assert(queue@[q] < i);
                        }
                        if d == 0 {
                            assert(queue@[q0.len() as int] == m as usize);
                        }
                    }
                }
            }
            i = i + 1;
        }
        let mut head: usize = 0;
        let mut result: Vec<String> = Vec::new();
        proof {
            assert(views(result@) =~= Seq::<Seq<char>>::empty());
            let range = Seq::new(n as nat, |x: int| x as usize);
            assert forall|q: int| 0 <= q < queue@.len() implies range.contains(#[trigger] queue@[q]) by {
                assert(range[queue@[q] as int] == queue@[q]);
            }
            lemma_distinct_subseq(queue@, range);
        }
        while head < queue.len()
            invariant
                self.wf(),
                n == self.nodes.entries@.len(),
                keys == self.node_keys(),
                in_degree@.len() == n,
                head <= queue@.len(),
                forall|q: int| 0 <= q < queue@.len() ==> #[trigger] queue@[q] < n,
                queue@.no_duplicates(),
                result@.len() == head,
                forall|j: int| 0 <= j < head ==> #[trigger] views(result@)[j] == keys[queue@[j] as int],
                forall|m: int| 0 <= m < n ==> (queue@.contains(m as usize) <==> #[trigger] in_degree@[m] == 0),
                forall|m: int| 0 <= m < n ==> #[trigger] in_degree@[m] == count_outside(self.deps(keys[m]), views(result@)),
                forall|j: int, d: Seq<char>| 0 <= j < head && #[trigger] self.deps(views(result@)[j]).contains(d)
                    ==> exists|m: int| 0 <= m < j && views(result@)[m] == d,
                queue@.len() <= n,
            decreases n - head,
        {
            let cur = queue[head];
            proof {
                self.lemma_position(cur as int);
                // the current symbol has not been processed
                assert(!views(result@).contains(keys[cur as int])) by {
                    if views(result@).contains(keys[cur as int]) {
                        let j = choose|j: int| 0 <= j < views(result@).len() && views(result@)[j] == keys[cur as int];
                        self.nodes.lemma_key_at(queue@[j] as int);
                        self.nodes.lemma_key_at(cur as int);
                        assert(keys[queue@[j] as int] == keys[cur as int]);
                        assert(queue@[j] == cur);
                    }
                }
                assert(queue@.contains(cur));
                assert(in_degree@[cur as int] == 0);
                lemma_outside_zero(self.deps(keys[cur as int]), views(result@));
            }
            let ghost p_old = views(result@);
            let ghost kc = keys[cur as int];
            head = head + 1;
            result.push(self.nodes.entries[cur].0.clone());
            proof {
                assert(views(result@) =~= p_old.push(kc));
                assert forall|j: int, d: Seq<char>| 0 <= j < head && #[trigger] self.deps(views(result@)[j]).contains(d)
                    implies exists|m: int| 0 <= m < j && views(result@)[m] == d by {
                    if j < head - 1 {
                        assert(views(result@)[j] == p_old[j]);
                        let m = choose|m: int| 0 <= m < j && p_old[m] == d;
                        assert(views(result@)[m] == d);
                    } else {
                        assert(p_old.contains(d));
                        let m = choose|m: int| 0 <= m < p_old.len() && p_old[m] == d;
                        assert(views(result@)[m] == d);
                    }
                }
            }
            let dependents = &self.reverse_edges.entries[cur].1;
            let ghost rd = views(dependents@);
            let mut j: usize = 0;
            while j < dependents.len()
                invariant
                    self.wf(),
                    n == self.nodes.entries@.len(),
                    keys == self.node_keys(),
                    rd == views(dependents@),
                    rd == self.rdeps(kc),
                    kc == keys[cur as int],
                    cur < n,
                    !p_old.contains(kc),
                    j <= dependents@.len(),
                    in_degree@.len() == n,
                    head <= queue@.len(),
                    forall|q: int| 0 <= q < queue@.len() ==> #[trigger] queue@[q] < n,
                    queue@.no_duplicates(),
                    queue@.len() <= n,
                    forall|q: int| 0 <= q < head ==> #[trigger] views(result@)[q] == keys[queue@[q] as int],
                    result@.len() == head,
                    views(result@) == p_old.push(kc),
                    forall|m: int| 0 <= m < n ==> (queue@.contains(m as usize) <==> #[trigger] in_degree@[m] == 0),
                    forall|m: int| 0 <= m < n ==> #[trigger] in_degree@[m] + count_of(rd.subrange(0, j as int), keys[m])
                        == count_outside(self.deps(keys[m]), p_old),
                decreases dependents@.len() - j,
            {
                let dep = &dependents[j];
                proof {
                    assert(rd[j as int] == dep@);
                    assert(rd.contains(dep@));
                    assert(self.is_node(dep@));
                }
                match self.nodes.find(dep.as_str()) {
                    Some(di) => {
                        proof {
                            self.nodes.lemma_key_at(di as int);
                            assert(keys[di as int] == dep@);
                            lemma_count_prefix_step(rd, j as int, dep@);
                            lemma_count_prefix_le(rd, j + 1, dep@);
                            assert(count_of(self.deps(dep@), kc) == count_of(self.rdeps(kc), dep@));
                            lemma_count_le_outside(self.deps(dep@), p_old, kc);
                            assert(in_degree@[di as int] + count_of(rd.subrange(0, j as int), keys[di as int])
                                == count_outside(self.deps(keys[di as int]), p_old));
                        }
                        let ghost ind0 = in_degree@;
                        let ghost q0 = queue@;
                        let nd = in_degree[di] - 1;
                        in_degree.set(di, nd);
                        if nd == 0 {
                            queue.push(di);
                            proof {
                                assert(!q0.contains(di)) by {
                                    assert(ind0[di as int] != 0);
                                }
                                assert forall|a: int, b: int| 0 <= a < queue@.len() && 0 <= b < queue@.len() && a != b
                                    implies queue@[a] != queue@[b] by {
                                    if a == q0.len() { assert(q0.contains(queue@[b])); }
                                    if b == q0.len() { assert(q0.contains(queue@[a])); }
                                }
                                let range = Seq::new(n as nat, |x: int| x as usize);
                                assert forall|q: int| 0 <= q < queue@.len() implies range.contains(#[trigger] queue@[q]) by {
                                    assert(range[queue@[q] as int] == queue@[q]);
                                }
                                lemma_distinct_subseq(queue@, range);
                            }
                        }
                        proof {
                            assert forall|m: int| 0 <= m < n implies #[trigger] in_degree@[m] + count_of(rd.subrange(0, j + 1), keys[m])
                                == count_outside(self.deps(keys[m]), p_old) by {
                                lemma_count_prefix_step(rd, j as int, keys[m]);
                                if m != di as int {
                                    self.nodes.lemma_key_at(m);
                                    assert(keys[m] != keys[di as int]) by {
                                        assert(self.nodes.spec_keys().no_duplicates());
                                    }
                                }
                            }
                            assert forall|m: int| 0 <= m < n implies (queue@.contains(m as usize) <==> #[trigger] in_degree@[m] == 0) by {
                                if m != di as int {
                                    if queue@.contains(m as usize) && nd == 0 {
                                        let q = choose|q: int| 0 <= q < queue@.len() && queue@[q] == m as usize;
                                        if q < q0.len() { assert(q0[q] == m as usize); }
                                    }
                                    if q0.contains(m as usize) {
                                        let q = choose|q: int| 0 <= q < q0.len() && q0[q] == m as usize;
                                        assert(queue@[q] == m as usize);
                                    }
                                } else {
                                    if nd == 0 {
                                        assert(queue@[q0.len() as int] == di);
                                    } else {
                                        if queue@.contains(m as usize) {
                                            let q = choose|q: int| 0 <= q < queue@.len() && queue@[q] == m as usize;
                                            assert(q0[q] == di);
                                            assert(ind0[di as int] == 0);
                                        }
                                    }
                                }
                            }
                        }
                    },
                    None => {
                        proof { assert(false); }
                    },
                }
                j = j + 1;
            }
            proof {
                assert(rd.subrange(0, rd.len() as int) =~= rd);
                assert forall|m: int| 0 <= m < n implies #[trigger] in_degree@[m]
                    == count_outside(self.deps(keys[m]), views(result@)) by {
                    self.nodes.lemma_key_at(m);
                    assert(count_of(self.deps(keys[m]), kc) == count_of(self.rdeps(kc), keys[m]));
                    lemma_outside_push(self.deps(keys[m]), p_old, kc);
                }
            }
        }
        // every processed symbol is a key, and no key is processed twice
        proof {
            assert forall|j: int| 0 <= j < views(result@).len() implies keys.contains(#[trigger] views(result@)[j]) by {
                self.nodes.lemma_key_at(queue@[j] as int);
            }
            assert(views(result@).no_duplicates()) by {
                assert forall|a: int, b: int| 0 <= a < views(result@).len() && 0 <= b < views(result@).len() && a != b
                    implies views(result@)[a] != views(result@)[b] by {
                    self.nodes.lemma_key_at(queue@[a] as int);
                    self.nodes.lemma_key_at(queue@[b] as int);
                }
            }
            lemma_distinct_subseq(views(result@), keys);
        }
        if result.len() != n {
            proof {
                let p = views(result@);
                let i0 = choose|i0: int| 0 <= i0 < keys.len() && !p.contains(#[trigger] keys[i0]);
                let s = Set::new(|k: Seq<char>| self.is_node(k) && !p.contains(k));
                self.nodes.lemma_key_at(i0);
                assert(s.contains(keys[i0]));
                assert forall|x: Seq<char>| #[trigger] s.contains(x) implies self.is_node(x) && self.has_dep_in(x, s) by {
                    let m = self.lemma_node_position(x);
                    // m is not in the queue: otherwise x would be processed
                    assert(!queue@.contains(m as usize)) by {
                        if queue@.contains(m as usize) {
                            let q = choose|q: int| 0 <= q < queue@.len() && queue@[q] == m as usize;
                            assert(p[q] == keys[m]);
                        }
                    }
                    assert(in_degree@[m] != 0);
                    lemma_outside_zero(self.deps(x), p);
                    let d = choose|d: Seq<char>| self.deps(x).contains(d) && !p.contains(d);
                    assert(self.is_node(d));
                    assert(s.contains(d));
                    reveal(DependencyGraph::has_dep_in);
                }
                assert(self.closed_under_deps(s));
            }
            let missing = n - result.len();
            return Err(ResolutionError::DependencyGraphCorrupted {
                details: concat3("Topological sort incomplete: ", usize_to_string(missing).as_str(), " unprocessed nodes"),
            });
        }
        proof {
            let p = views(result@);
            assert forall|x: Seq<char>| p.contains(x) <==> self.is_node(x) by {
                if p.contains(x) {
                    let j = choose|j: int| 0 <= j < p.len() && p[j] == x;
                    assert(keys.contains(p[j]));
                }
                if self.is_node(x) {
                    let m = self.lemma_node_position(x);
                    assert(p.contains(keys[m]));
                }
            }
            assert(self.is_resolution_order(p));
            self.lemma_order_acyclic(p);
        }
        Ok(result)
    }
}

/// Total length of the lists of a map's entries.
pub open spec fn sum_lens(s: Seq<(String, Vec<String>)>) -> nat
    decreases s.len(),
{
    if s.len() == 0 { 0 } else { sum_lens(s.drop_last()) + s.last().1@.len() }
}

/// Largest length of the lists of a map's entries (0 for no entries).
pub open spec fn max_len(s: Seq<(String, Vec<String>)>) -> nat
    decreases s.len(),
{
    if s.len() == 0 {
        0
    } else {
        let m = max_len(s.drop_last());
        if s.last().1@.len() > m { s.last().1@.len() } else { m }
    }
}

/// Keys of the entries whose list is empty, in order.
pub open spec fn keys_with_empty(s: Seq<(String, Vec<String>)>) -> Seq<Seq<char>>
    decreases s.len(),
{
    if s.len() == 0 {
        Seq::empty()
    } else {
        keys_with_empty(s.drop_last()) + if s.last().1@.len() == 0 { seq![s.last().0@] } else { Seq::empty() }
    }
}

/// Keys drawn, in order, from entries with distinct keys are distinct, and
/// each is a key of the entries.
pub proof fn lemma_keys_with_empty_distinct(s: Seq<(String, Vec<String>)>)
    requires
        crate::string_map::entry_keys(s).no_duplicates(),
    ensures
        keys_with_empty(s).no_duplicates(),
        forall|x: Seq<char>| keys_with_empty(s).contains(x) ==> crate::string_map::entry_keys(s).contains(x),
    decreases s.len(),
{
    if s.len() > 0 {
        let ks = crate::string_map::entry_keys(s);
        let r = s.drop_last();
        assert(crate::string_map::entry_keys(r) =~= ks.drop_last());
        lemma_keys_with_empty_distinct(r);
        let p = keys_with_empty(r);
        let k = s.last().0@;
        assert(ks[ks.len() - 1] == k);
        assert(!ks.drop_last().contains(k)) by {
            if ks.drop_last().contains(k) {
                let j = choose|j: int| 0 <= j < ks.drop_last().len() && ks.drop_last()[j] == k;
                assert(ks[j] == ks[ks.len() - 1]);
            }
        }
        let tail = if s.last().1@.len() == 0 { seq![k] } else { Seq::<Seq<char>>::empty() };
        assert(keys_with_empty(s) == p + tail);
        assert forall|a: int, b: int| 0 <= a < (p + tail).len() && 0 <= b < (p + tail).len() && a != b
            implies (p + tail)[a] != (p + tail)[b] by {
            if a >= p.len() { assert(p.contains(p[b])); }
            if b >= p.len() { assert(p.contains(p[a])); }
        }
        assert forall|x: Seq<char>| (p + tail).contains(x) implies ks.contains(x) by {
            let j = choose|j: int| 0 <= j < (p + tail).len() && (p + tail)[j] == x;
            if j < p.len() {
                assert(p.contains(x));
                assert(ks.drop_last().contains(x));
                let q = choose|q: int| 0 <= q < ks.drop_last().len() && ks.drop_last()[q] == x;
                assert(ks[q] == x);
            } else {
                assert(ks[ks.len() - 1] == x);
            }
        }
    }
}

/// Total length of the lists of CTN-keyed entries.
pub open spec fn sum_ctn_lens(s: Seq<(usize, Vec<String>)>) -> nat
    decreases s.len(),
{
    if s.len() == 0 { 0 } else { sum_ctn_lens(s.drop_last()) + s.last().1@.len() }
}

/// A positive count means an occurrence.
pub proof fn lemma_count_pos(s: Seq<Seq<char>>, x: Seq<char>)
    requires
        count_of(s, x) > 0,
    ensures
        s.contains(x),
{
    if !s.contains(x) {
        lemma_count_absent(s, x);
    }
}

/// Keys with empty lists, computed by a scan.
fn collect_empty_keys(m: &StringMap<Vec<String>>) -> (res: Vec<String>)
    ensures
        views(res@) == keys_with_empty(m.entries@),
{
    let mut out: Vec<String> = Vec::new();
    let mut i: usize = 0;
    while i < m.entries.len()
        invariant
            i <= m.entries@.len(),
            views(out@) == keys_with_empty(m.entries@.subrange(0, i as int)),
        decreases m.entries@.len() - i,
    {
        proof {
            assert(m.entries@.subrange(0, i + 1).drop_last() =~= m.entries@.subrange(0, i as int));
        }
        let ghost prev = views(out@);
        if m.entries[i].1.len() == 0 {
            out.push(m.entries[i].0.clone());
            proof {
                assert(views(out@) =~= prev + seq![m.entries@[i as int].0@]);
            }
        } else {
            proof {
                assert(views(out@) =~= prev + Seq::<Seq<char>>::empty());
            }
        }
        i = i + 1;
    }
    proof {
        assert(m.entries@.subrange(0, m.entries@.len() as int) =~= m.entries@);
    }
    out
}

/// The maps of a graph each have distinct keys.
pub open spec fn maps_wf(g: DependencyGraph) -> bool {
    g.nodes.wf() && g.edges.wf() && g.reverse_edges.wf()
}

/// Every edge list belongs to a symbol and points at symbols.
pub open spec fn edges_ok(g: DependencyGraph) -> bool {
    forall|i: int| 0 <= i < g.edges.entries@.len() ==> {
        &&& g.nodes.has(#[trigger] g.edges.entries@[i].0@)
        &&& forall|t: Seq<char>| #[trigger] views(g.edges.entries@[i].1@).contains(t) ==> g.nodes.has(t)
    }
}

/// Every reverse edge `node <- dependent` has the edge `dependent -> node`.
pub open spec fn reverse_ok(g: DependencyGraph) -> bool {
    forall|i: int| #![trigger g.reverse_edges.entries@[i]] 0 <= i < g.reverse_edges.entries@.len() ==>
        forall|d: Seq<char>| #[trigger] views(g.reverse_edges.entries@[i].1@).contains(d) ==>
            g.edges.has(d) && views(g.edges.at(d)@).contains(g.reverse_edges.entries@[i].0@)
}

impl DependencyGraph {
    /// Statistics of the graph.
    pub fn get_stats(&self) -> (res: GraphStats)
        requires
            sum_lens(self.edges.entries@) <= usize::MAX,
            sum_ctn_lens(self.local_symbols.entries@) <= usize::MAX,
        ensures
            res.total_nodes == self.nodes.entries@.len(),
            res.total_edges == sum_lens(self.edges.entries@),
            res.global_symbols == self.global_symbols@.len(),
            res.local_symbols == sum_ctn_lens(self.local_symbols.entries@),
            res.max_dependencies == max_len(self.edges.entries@),
            res.nodes_with_no_dependencies == keys_with_empty(self.edges.entries@).len(),
    {
        let mut total: usize = 0;
        let mut maxd: usize = 0;
        let mut i: usize = 0;
        proof {
            assert(self.edges.entries@.subrange(0, 0) =~= Seq::<(String, Vec<String>)>::empty());
        }
        while i < self.edges.entries.len()
            invariant
                i <= self.edges.entries@.len(),
                total == sum_lens(self.edges.entries@.subrange(0, i as int)),
                maxd == max_len(self.edges.entries@.subrange(0, i as int)),
                sum_lens(self.edges.entries@) <= usize::MAX,
            decreases self.edges.entries@.len() - i,
        {
            proof {
                assert(self.edges.entries@.subrange(0, i + 1).drop_last() =~= self.edges.entries@.subrange(0, i as int));
                self.lemma_sum_prefix(i + 1);
            }
            let l = self.edges.entries[i].1.len();
            total = total + l;
            if l > maxd {
                maxd = l;
            }
            i = i + 1;
        }
        proof {
            assert(self.edges.entries@.subrange(0, self.edges.entries@.len() as int) =~= self.edges.entries@);
        }
        let mut local: usize = 0;
        let mut j: usize = 0;
        while j < self.local_symbols.entries.len()
            invariant
                j <= self.local_symbols.entries@.len(),
                local == sum_ctn_lens(self.local_symbols.entries@.subrange(0, j as int)),
                sum_ctn_lens(self.local_symbols.entries@) <= usize::MAX,
            decreases self.local_symbols.entries@.len() - j,
        {
            proof {
                assert(self.local_symbols.entries@.subrange(0, j + 1).drop_last() =~= self.local_symbols.entries@.subrange(0, j as int));
                self.lemma_ctn_sum_prefix(j + 1);
            }
            local = local + self.local_symbols.entries[j].1.len();
            j = j + 1;
        }
        proof {
            assert(self.local_symbols.entries@.subrange(0, self.local_symbols.entries@.len() as int) =~= self.local_symbols.entries@);
        }
        let empty = collect_empty_keys(&self.edges);
        GraphStats {
            total_nodes: self.nodes.len(),
            total_edges: total,
            global_symbols: self.global_symbols.len(),
            local_symbols: local,
            max_dependencies: maxd,
            nodes_with_no_dependencies: empty.len(),
        }
    }

    proof fn lemma_sum_prefix(&self, k: int)
        requires
            0 <= k <= self.edges.entries@.len(),
        ensures
            sum_lens(self.edges.entries@.subrange(0, k)) <= sum_lens(self.edges.entries@),
        decreases self.edges.entries@.len() - k,
    {
        if k < self.edges.entries@.len() {
            self.lemma_sum_prefix(k + 1);
            assert(self.edges.entries@.subrange(0, k + 1).drop_last() =~= self.edges.entries@.subrange(0, k));
        } else {
            assert(self.edges.entries@.subrange(0, k) =~= self.edges.entries@);
        }
    }

    proof fn lemma_ctn_sum_prefix(&self, k: int)
        requires
            0 <= k <= self.local_symbols.entries@.len(),
        ensures
            sum_ctn_lens(self.local_symbols.entries@.subrange(0, k)) <= sum_ctn_lens(self.local_symbols.entries@),
        decreases self.local_symbols.entries@.len() - k,
    {
        if k < self.local_symbols.entries@.len() {
            self.lemma_ctn_sum_prefix(k + 1);
            assert(self.local_symbols.entries@.subrange(0, k + 1).drop_last() =~= self.local_symbols.entries@.subrange(0, k));
        } else {
            assert(self.local_symbols.entries@.subrange(0, k) =~= self.local_symbols.entries@);
        }
    }

    /// Symbols without dependencies, in insertion order.
    pub fn get_independent_symbols(&self) -> (res: Vec<String>)
        ensures
            views(res@) == keys_with_empty(self.edges.entries@),
            self.edges.wf() ==> views(res@).no_duplicates(),
    {
        proof {
            if self.edges.wf() {
                lemma_keys_with_empty_distinct(self.edges.entries@);
            }
        }
        collect_empty_keys(&self.edges)
    }

    /// Symbols that nothing depends on, in insertion order.
    pub fn get_leaf_symbols(&self) -> (res: Vec<String>)
        ensures
            views(res@) == keys_with_empty(self.reverse_edges.entries@),
            self.reverse_edges.wf() ==> views(res@).no_duplicates(),
    {
        proof {
            if self.reverse_edges.wf() {
                lemma_keys_with_empty_distinct(self.reverse_edges.entries@);
            }
        }
        collect_empty_keys(&self.reverse_edges)
    }
}


/// `msg` reports a defect that the graph has: an edge list without a symbol,
/// an edge to a missing symbol, or a reverse edge without its edge.
pub open spec fn validation_defect(g: DependencyGraph, msg: Seq<char>) -> bool {
    ||| exists|i: int| #![trigger g.edges.entries@[i]]
        0 <= i < g.edges.entries@.len() && !g.nodes.has(g.edges.entries@[i].0@)
        && msg == "Edge references non-existent source node: "@ + g.edges.entries@[i].0@
    ||| exists|i: int, j: int| #![trigger g.edges.entries@[i].1@[j]]
        0 <= i < g.edges.entries@.len() && 0 <= j < g.edges.entries@[i].1@.len()
        && !g.nodes.has(g.edges.entries@[i].1@[j]@)
        && msg == "Edge from '"@ + g.edges.entries@[i].0@ + "' references non-existent target node: "@
            + g.edges.entries@[i].1@[j]@
    ||| exists|i: int, j: int| #![trigger g.reverse_edges.entries@[i].1@[j]]
        0 <= i < g.reverse_edges.entries@.len() && 0 <= j < g.reverse_edges.entries@[i].1@.len()
        && !(g.edges.has(g.reverse_edges.entries@[i].1@[j]@)
            && views(g.edges.at(g.reverse_edges.entries@[i].1@[j]@)@).contains(g.reverse_edges.entries@[i].0@))
        && msg == "Inconsistent reverse edge: "@ + g.reverse_edges.entries@[i].1@[j]@ + " -> "@
            + g.reverse_edges.entries@[i].0@
}

impl DependencyGraph {
    /// Checks that every edge joins two symbols of the graph and that every
    /// reverse edge has its forward edge.
    pub fn validate(&self) -> (res: Result<(), ResolutionError>)
        requires
            maps_wf(*self),
        ensures
            res is Ok <==> edges_ok(*self) && reverse_ok(*self),
            res matches Err(e) ==> e matches ResolutionError::DependencyGraphCorrupted { details }
                && validation_defect(*self, details@),
    {
        let mut i: usize = 0;
        while i < self.edges.entries.len()
            invariant
                i <= self.edges.entries@.len(),
                forall|a: int| #![trigger self.edges.entries@[a]] 0 <= a < i ==> {
                    &&& self.nodes.has(self.edges.entries@[a].0@)
                    &&& forall|t: Seq<char>| #[trigger] views(self.edges.entries@[a].1@).contains(t) ==> self.nodes.has(t)
                },
            decreases self.edges.entries@.len() - i,
        {
            let from = &self.edges.entries[i].0;
            if !self.nodes.contains_key(from.as_str()) {
                proof {
                    assert(!self.nodes.has(self.edges.entries@[i as int].0@));
                }
                return Err(ResolutionError::DependencyGraphCorrupted {
                    details: concat2("Edge references non-existent source node: ", from.as_str()),
                });
            }
            let deps = &self.edges.entries[i].1;
            let mut j: usize = 0;
            while j < deps.len()
                invariant
                    j <= deps@.len(),
                    i < self.edges.entries@.len(),
                    deps == &self.edges.entries@[i as int].1,
                    from == &self.edges.entries@[i as int].0,
                    forall|b: int| 0 <= b < j ==> self.nodes.has(#[trigger] deps@[b]@),
                decreases deps@.len() - j,
            {
                let to = &deps[j];
                if !self.nodes.contains_key(to.as_str()) {
                    proof {
                        assert(!self.nodes.has(self.edges.entries@[i as int].1@[j as int]@));
                        assert(views(deps@)[j as int] == to@);
                        assert(views(self.edges.entries@[i as int].1@).contains(to@));
                    }
                    return Err(ResolutionError::DependencyGraphCorrupted {
                        details: concat4("Edge from '", from.as_str(), "' references non-existent target node: ", to.as_str()),
                    });
                }
                j = j + 1;
            }
            proof {
                assert forall|t: Seq<char>| #[trigger] views(deps@).contains(t) implies self.nodes.has(t) by {
                    let b = choose|b: int| 0 <= b < views(deps@).len() && views(deps@)[b] == t;
                    assert(self.nodes.has(deps@[b]@));
                }
            }
            i = i + 1;
        }
        let mut r: usize = 0;
        while r < self.reverse_edges.entries.len()
            invariant
                r <= self.reverse_edges.entries@.len(),
                edges_ok(*self),
                maps_wf(*self),
                forall|a: int| #![trigger self.reverse_edges.entries@[a]] 0 <= a < r ==>
                    forall|d: Seq<char>| #[trigger] views(self.reverse_edges.entries@[a].1@).contains(d) ==>
                        self.edges.has(d) && views(self.edges.at(d)@).contains(self.reverse_edges.entries@[a].0@),
            decreases self.reverse_edges.entries@.len() - r,
        {
            let node = &self.reverse_edges.entries[r].0;
            let dependents = &self.reverse_edges.entries[r].1;
            let mut j: usize = 0;
            while j < dependents.len()
                invariant
                    j <= dependents@.len(),
                    r < self.reverse_edges.entries@.len(),
                    maps_wf(*self),
                    node == &self.reverse_edges.entries@[r as int].0,
                    dependents == &self.reverse_edges.entries@[r as int].1,
                    forall|b: int| 0 <= b < j ==> self.edges.has(#[trigger] dependents@[b]@)
                        && views(self.edges.at(dependents@[b]@)@).contains(node@),
                decreases dependents@.len() - j,
            {
                let dependent = &dependents[j];
                let ok = match self.edges.get(dependent.as_str()) {
                    Some(fwd) => position_in(fwd, node.as_str()).is_some(),
                    None => false,
                };
                if !ok {
                    proof {
                        let d = self.reverse_edges.entries@[r as int].1@[j as int]@;
                        if self.edges.has(d) {
                            assert(!views(self.edges.at(d)@).contains(node@));
                        }
                        assert(views(dependents@)[j as int] == d);
                        assert(views(self.reverse_edges.entries@[r as int].1@).contains(d));
                    }
                    return Err(ResolutionError::DependencyGraphCorrupted {
                        details: concat4("Inconsistent reverse edge: ", dependent.as_str(), " -> ", node.as_str()),
                    });
                }
                proof {
                    let fwd = self.edges.at(dependent@);
                    let k = choose|k: int| 0 <= k < fwd@.len() && fwd@[k]@ == node@;
                    assert(views(fwd@)[k] == node@);
                }
                j = j + 1;
            }
            proof {
                assert forall|d: Seq<char>| #[trigger] views(dependents@).contains(d) implies
                    self.edges.has(d) && views(self.edges.at(d)@).contains(node@) by {
                    let b = choose|b: int| 0 <= b < views(dependents@).len() && views(dependents@)[b] == d;
                    assert(self.edges.has(dependents@[b]@));
                }
            }
            r = r + 1;
        }
        Ok(())
    }
}

/// A consistent graph validates: every graph built by `new`, `add_node`,
/// `add_local_node` and `add_dependency` passes `validate`.
pub proof fn lemma_wf_graph_validates(g: DependencyGraph)
    requires
        g.wf(),
    ensures
        maps_wf(g),
        edges_ok(g),
        reverse_ok(g),
{
    assert forall|i: int| #![trigger g.edges.entries@[i]] 0 <= i < g.edges.entries@.len() implies {
        &&& g.nodes.has(g.edges.entries@[i].0@)
        &&& forall|t: Seq<char>| #[trigger] views(g.edges.entries@[i].1@).contains(t) ==> g.nodes.has(t)
    } by {
        g.edges.lemma_key_at(i);
        let k = g.edges.entries@[i].0@;
        assert(g.edges.spec_keys()[i] == k);
        assert(g.nodes.has(k));
        assert forall|t: Seq<char>| #[trigger] views(g.edges.entries@[i].1@).contains(t) implies g.nodes.has(t) by {
            assert(g.deps(k).contains(t));
        }
    }
    assert forall|i: int| #![trigger g.reverse_edges.entries@[i]] 0 <= i < g.reverse_edges.entries@.len() implies
        forall|d: Seq<char>| #[trigger] views(g.reverse_edges.entries@[i].1@).contains(d) ==>
            g.edges.has(d) && views(g.edges.at(d)@).contains(g.reverse_edges.entries@[i].0@) by {
        g.reverse_edges.lemma_key_at(i);
        let n = g.reverse_edges.entries@[i].0@;
        assert(g.reverse_edges.spec_keys()[i] == n);
        assert(g.is_node(n));
        assert forall|d: Seq<char>| #[trigger] views(g.reverse_edges.entries@[i].1@).contains(d) implies
            g.edges.has(d) && views(g.edges.at(d)@).contains(n) by {
            assert(g.rdeps(n).contains(d));
            assert(g.is_node(d));
            lemma_count_contains(g.rdeps(n), d);
            assert(count_of(g.deps(d), n) == count_of(g.rdeps(n), d));
            lemma_count_pos(g.deps(d), n);
        }
    }
}

/// An occurring symbol has a positive count.
pub proof fn lemma_count_contains(s: Seq<Seq<char>>, x: Seq<char>)
    requires
        s.contains(x),
    ensures
        count_of(s, x) > 0,
    decreases s.len(),
{
    if s.last() != x {
        assert(s.drop_last().contains(x)) by {
            let i = choose|i: int| 0 <= i < s.len() && s[i] == x;
            assert(s.drop_last()[i] == x);
        }
        lemma_count_contains(s.drop_last(), x);
    }
}

} // verus!
