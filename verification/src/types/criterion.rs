//! Criterion (CTN) declarations.

use vstd::prelude::*;
use crate::strings::concat3;
use crate::types::test::TestSpecification;
use crate::types::state::{StateDeclaration, StateRef, state_var_refs};
use crate::types::object::{ObjectDeclaration, ObjectRef, elements_var_refs, elements_filter_refs,
    collect_element_filter_refs};

verus! {

/// Identifier of a criterion node within the criteria trees.
pub type CtnNodeId = usize;

/// A criterion (CTN block): a test over states and objects.
#[derive(Debug)]
pub struct CriterionDeclaration {
    pub criterion_type: String,
    pub test: TestSpecification,
    pub state_refs: Vec<StateRef>,
    pub object_refs: Vec<ObjectRef>,
    pub local_states: Vec<StateDeclaration>,
    pub local_object: Option<ObjectDeclaration>,
    pub ctn_node_id: Option<CtnNodeId>,
}

/// The variables referenced by a list of states, in order.
pub open spec fn states_var_refs(s: Seq<StateDeclaration>) -> Seq<Seq<char>>
    decreases s.len(),
{
    if s.len() == 0 {
        Seq::empty()
    } else {
        states_var_refs(s.drop_last()) + state_var_refs(s.last())
    }
}

/// The variables referenced by a criterion: those of its local states, then
/// those of its local object.
pub open spec fn criterion_var_refs(c: CriterionDeclaration) -> Seq<Seq<char>> {
    states_var_refs(c.local_states@) + match c.local_object {
        Some(o) => elements_var_refs(o.elements@),
        None => Seq::empty(),
    }
}

/// The states referenced by the filters of a criterion's local object.
pub open spec fn criterion_filter_refs(c: CriterionDeclaration) -> Seq<Seq<char>> {
    match c.local_object {
        Some(o) => elements_filter_refs(o.elements@),
        None => Seq::empty(),
    }
}

/// A criterion has content: a state or object reference, a local state or a local object.
pub open spec fn criterion_has_content(c: CriterionDeclaration) -> bool {
    c.state_refs@.len() > 0 || c.object_refs@.len() > 0 || c.local_states@.len() > 0
        || c.local_object is Some
}

impl CriterionDeclaration {
    /// The variables referenced by the local states and the local object.
    pub fn get_variable_references(&self) -> (res: Vec<String>)
        ensures
            res@.map_values(|r: String| r@) == criterion_var_refs(*self),
    {
        let mut out: Vec<String> = Vec::new();
        let mut i: usize = 0;
        while i < self.local_states.len()
            invariant
                i <= self.local_states@.len(),
                out@.map_values(|r: String| r@) == states_var_refs(self.local_states@.subrange(0, i as int)),
            decreases self.local_states@.len() - i,
        {
            proof {
                assert(self.local_states@.subrange(0, i + 1).drop_last() =~= self.local_states@.subrange(0, i as int));
            }
            let ghost prev = out@;
            let mut refs = self.local_states[i].get_variable_references();
            let ghost r = refs@;
            out.append(&mut refs);
            proof {
                assert(out@.map_values(|r: String| r@) =~= prev.map_values(|r: String| r@) + r.map_values(|r: String| r@));
            }
            i = i + 1;
        }
        proof {
            assert(self.local_states@.subrange(0, self.local_states@.len() as int) =~= self.local_states@);
        }
        let ghost prev = out@;
        match &self.local_object {
            Some(o) => {
                let mut refs = o.get_variable_references();
                let ghost r = refs@;
                out.append(&mut refs);
                proof {
                    assert(out@.map_values(|r: String| r@) =~= prev.map_values(|r: String| r@) + r.map_values(|r: String| r@));
                }
            },
            None => {
                assert(out@.map_values(|r: String| r@) =~= prev.map_values(|r: String| r@) + Seq::<Seq<char>>::empty());
            },
        }
        out
    }

    /// The identifiers of the referenced global states, in order.
    pub fn get_global_state_refs(&self) -> (res: Vec<String>)
        ensures
            res@.map_values(|r: String| r@) == self.state_refs@.map_values(|r: StateRef| r.state_id@),
    {
        let mut out: Vec<String> = Vec::new();
        let mut i: usize = 0;
        while i < self.state_refs.len()
            invariant
                i <= self.state_refs@.len(),
                out@.map_values(|r: String| r@) == self.state_refs@.subrange(0, i as int).map_values(|r: StateRef| r.state_id@),
            decreases self.state_refs@.len() - i,
        {
            let ghost prev = out@;
            out.push(self.state_refs[i].state_id.clone());
            proof {
                assert(out@.map_values(|r: String| r@) =~= prev.map_values(|r: String| r@).push(self.state_refs@[i as int].state_id@));
                assert(self.state_refs@.subrange(0, i + 1).map_values(|r: StateRef| r.state_id@) =~=
                    self.state_refs@.subrange(0, i as int).map_values(|r: StateRef| r.state_id@).push(self.state_refs@[i as int].state_id@));
            }
            i = i + 1;
        }
        proof {
            assert(self.state_refs@.subrange(0, self.state_refs@.len() as int) =~= self.state_refs@);
        }
        out
    }

    /// The identifiers of the referenced global objects, in order.
    pub fn get_global_object_refs(&self) -> (res: Vec<String>)
        ensures
            res@.map_values(|r: String| r@) == self.object_refs@.map_values(|r: ObjectRef| r.object_id@),
    {
        let mut out: Vec<String> = Vec::new();
        let mut i: usize = 0;
        while i < self.object_refs.len()
            invariant
                i <= self.object_refs@.len(),
                out@.map_values(|r: String| r@) == self.object_refs@.subrange(0, i as int).map_values(|r: ObjectRef| r.object_id@),
            decreases self.object_refs@.len() - i,
        {
            let ghost prev = out@;
            out.push(self.object_refs[i].object_id.clone());
            proof {
                assert(out@.map_values(|r: String| r@) =~= prev.map_values(|r: String| r@).push(self.object_refs@[i as int].object_id@));
                assert(self.object_refs@.subrange(0, i + 1).map_values(|r: ObjectRef| r.object_id@) =~=
                    self.object_refs@.subrange(0, i as int).map_values(|r: ObjectRef| r.object_id@).push(self.object_refs@[i as int].object_id@));
            }
            i = i + 1;
        }
        proof {
            assert(self.object_refs@.subrange(0, self.object_refs@.len() as int) =~= self.object_refs@);
        }
        out
    }

    /// The states referenced by the filters of the local object.
    pub fn get_filter_dependencies(&self) -> (res: Vec<String>)
        ensures
            res@.map_values(|r: String| r@) == criterion_filter_refs(*self),
    {
        match &self.local_object {
            Some(o) => collect_element_filter_refs(&o.elements),
            None => Vec::new(),
        }
    }

    /// Structural check: the criterion type is not empty and the criterion
    /// has some content.
    pub fn validate(&self) -> (res: Result<(), String>)
        ensures
            match res {
                Ok(()) => self.criterion_type@.len() > 0 && criterion_has_content(*self),
                Err(msg) => if self.criterion_type@.len() == 0 {
                    msg@ == "Criterion type cannot be empty"@
                } else {
                    !criterion_has_content(*self) && msg@ == "CTN '"@ + self.criterion_type@
                        + "' has no content (state refs, object refs, or local elements required)"@
                },
            },
    {
        if self.criterion_type.as_str().is_empty() {
            return Err(String::from_str("Criterion type cannot be empty"));
        }
        if self.state_refs.len() == 0 && self.object_refs.len() == 0 && self.local_states.len() == 0
            && self.local_object.is_none() {
            return Err(concat3("CTN '", self.criterion_type.as_str(),
                "' has no content (state refs, object refs, or local elements required)"));
        }
        Ok(())
    }
}

} // verus!
