//! Criteria trees: criteria blocks joined by logical operators.

use vstd::prelude::*;
use crate::types::common::LogicalOp;
use crate::types::criterion::{CriterionDeclaration, CtnNodeId};

verus! {

/// A node of a criteria tree: a criterion, or a block of children joined by
/// a logical operator and optionally negated.
#[derive(Debug)]
pub enum CriteriaTree {
    Criterion { declaration: CriterionDeclaration, node_id: CtnNodeId },
    Block { logical_op: LogicalOp, negate: bool, children: Vec<CriteriaTree> },
}

/// The criteria of a tree, in depth-first order.
pub open spec fn tree_criteria(t: CriteriaTree) -> Seq<CriterionDeclaration>
    decreases t,
{
    match t {
        CriteriaTree::Criterion { declaration, .. } => seq![declaration],
        CriteriaTree::Block { children, .. } => forest_criteria(children@),
    }
}

/// The criteria of a list of trees, in depth-first order.
pub open spec fn forest_criteria(s: Seq<CriteriaTree>) -> Seq<CriterionDeclaration>
    decreases s,
{
    if s.len() == 0 {
        Seq::empty()
    } else {
        forest_criteria(s.drop_last()) + tree_criteria(s.last())
    }
}

impl CriteriaTree {
    /// Append the criteria of this tree, in depth-first order, to `out`.
    pub fn collect_criteria<'a>(&'a self, out: &mut Vec<&'a CriterionDeclaration>)
        ensures
            final(out)@ == old(out)@ + tree_criteria(*self).map_values(|c: CriterionDeclaration| &c),
        decreases self,
    {
        match self {
            CriteriaTree::Criterion { declaration, .. } => {
                out.push(declaration);
                proof {
                    assert(tree_criteria(*self).map_values(|c: CriterionDeclaration| &c) =~= seq![declaration]);
                }
            },
            CriteriaTree::Block { children, .. } => {
                let ghost start = out@;
                let mut i: usize = 0;
                while i < children.len()
                    invariant
                        i <= children@.len(),
                        *self is Block,
                        (*self)->children == *children,
                        out@ == start + forest_criteria(children@.subrange(0, i as int)).map_values(|c: CriterionDeclaration| &c),
                    decreases children@.len() - i,
                {
                    proof {
                        assert(children@.subrange(0, i + 1).drop_last() =~= children@.subrange(0, i as int));
                        assert(children@.subrange(0, i + 1).last() == children@[i as int]);
                    }
                    let ghost prev = out@;
                    proof {
                        assert(decreases_to!(*children => children[i as int]));
                        assert(decreases_to!(*self => (*self)->children));
                    }
                    children[i].collect_criteria(out);
                    proof {
                        assert(forest_criteria(children@.subrange(0, i + 1)) ==
                            forest_criteria(children@.subrange(0, i as int)) + tree_criteria(children@[i as int]));
                        assert(out@ =~= start + forest_criteria(children@.subrange(0, i + 1)).map_values(|c: CriterionDeclaration| &c));
                    }
                    i = i + 1;
                }
                proof {
                    assert(children@.subrange(0, children@.len() as int) =~= children@);
                }
            },
        }
    }

    /// The number of criteria in this tree.
    pub fn count_criteria(&self) -> (res: usize)
        requires
            tree_criteria(*self).len() <= usize::MAX,
        ensures
            res == tree_criteria(*self).len(),
    {
        let mut out: Vec<&CriterionDeclaration> = Vec::new();
        self.collect_criteria(&mut out);
        out.len()
    }
}

/// The top-level criteria trees of a definition.
#[derive(Debug)]
pub struct CriteriaRoot {
    pub trees: Vec<CriteriaTree>,
    pub root_logical_op: LogicalOp,
}

impl CriteriaRoot {
    /// An empty root; top-level trees are joined by AND.
    pub fn new() -> (res: CriteriaRoot)
        ensures
            res.trees@.len() == 0,
            res.root_logical_op == LogicalOp::And,
    {
        CriteriaRoot { trees: Vec::new(), root_logical_op: LogicalOp::And }
    }

    /// All criteria of all trees, in depth-first order.
    pub fn get_all_criteria(&self) -> (res: Vec<&CriterionDeclaration>)
        ensures
            res@ == forest_criteria(self.trees@).map_values(|c: CriterionDeclaration| &c),
    {
        let mut out: Vec<&CriterionDeclaration> = Vec::new();
        let mut i: usize = 0;
        while i < self.trees.len()
            invariant
                i <= self.trees@.len(),
                out@ == forest_criteria(self.trees@.subrange(0, i as int)).map_values(|c: CriterionDeclaration| &c),
            decreases self.trees@.len() - i,
        {
            proof {
                assert(self.trees@.subrange(0, i + 1).drop_last() =~= self.trees@.subrange(0, i as int));
                assert(self.trees@.subrange(0, i + 1).last() == self.trees@[i as int]);
            }
            self.trees[i].collect_criteria(&mut out);
            proof {
                assert(forest_criteria(self.trees@.subrange(0, i + 1)) ==
                    forest_criteria(self.trees@.subrange(0, i as int)) + tree_criteria(self.trees@[i as int]));
                assert(out@ =~= forest_criteria(self.trees@.subrange(0, i + 1)).map_values(|c: CriterionDeclaration| &c));
            }
            i = i + 1;
        }
        proof {
            assert(self.trees@.subrange(0, self.trees@.len() as int) =~= self.trees@);
        }
        out
    }

    /// The number of criteria over all trees.
    pub fn total_criteria_count(&self) -> (res: usize)
        requires
            forest_criteria(self.trees@).len() <= usize::MAX,
        ensures
            res == forest_criteria(self.trees@).len(),
    {
        self.get_all_criteria().len()
    }
}

} // verus!
