//! Filter specifications: keep or drop items by the states they satisfy.

use vstd::prelude::*;
use crate::strings::str_eq;

verus! {

/// Whether a filter keeps or drops the matching items.
#[derive(Debug, Clone, Copy, PartialEq, Eq, Structural)]
pub enum FilterAction {
    Include,
    Exclude,
}

impl FilterAction {
    /// Parse `include` or `exclude`.
    pub fn from_str(s: &str) -> (res: Option<FilterAction>)
        ensures
            res == (if s@ == "include"@ {
                Some(FilterAction::Include)
            } else if s@ == "exclude"@ {
                Some(FilterAction::Exclude)
            } else {
                None::<FilterAction>
            }),
    {
        if str_eq(s, "include") {
            Some(FilterAction::Include)
        } else if str_eq(s, "exclude") {
            Some(FilterAction::Exclude)
        } else {
            None
        }
    }

    /// The spelling of the action.
    pub fn as_str(&self) -> (res: &'static str)
        ensures
            res@ == (match *self {
                FilterAction::Include => "include"@,
                FilterAction::Exclude => "exclude"@,
            }),
    {
        match self {
            FilterAction::Include => "include",
            FilterAction::Exclude => "exclude",
        }
    }
}

/// A filter as declared: an action and the global states it refers to.
#[derive(Debug)]
pub struct FilterSpec {
    pub action: FilterAction,
    pub state_refs: Vec<String>,
}

/// Copy a list of strings.
pub fn clone_strings(v: &Vec<String>) -> (res: Vec<String>)
    ensures
        res@ == v@,
{
    let mut out: Vec<String> = Vec::new();
    let mut i: usize = 0;
    while i < v.len()
        invariant
            i <= v@.len(),
            out@ == v@.subrange(0, i as int),
        decreases v@.len() - i,
    {
        out.push(v[i].clone());
        proof {
            assert(out@ =~= v@.subrange(0, i + 1));
        }
        i = i + 1;
    }
    proof {
        assert(out@ =~= v@);
    }
    out
}

impl Clone for FilterSpec {
    fn clone(&self) -> (res: Self)
        ensures
            res.action == self.action,
            res.state_refs@ == self.state_refs@,
    {
        FilterSpec { action: self.action, state_refs: clone_strings(&self.state_refs) }
    }
}

impl FilterSpec {
    /// The global states this filter depends on, in declaration order.
    pub fn get_state_dependencies(&self) -> (res: Vec<String>)
        ensures
            res@ == self.state_refs@,
    {
        clone_strings(&self.state_refs)
    }
}

/// A filter after resolution.
#[derive(Debug)]
pub struct ResolvedFilterSpec {
    pub action: FilterAction,
    pub state_refs: Vec<String>,
}

impl ResolvedFilterSpec {
    /// A resolved filter with the given action and state references.
    pub fn new(action: FilterAction, state_refs: Vec<String>) -> (res: ResolvedFilterSpec)
        ensures
            res.action == action,
            res.state_refs@ == state_refs@,
    {
        ResolvedFilterSpec { action, state_refs }
    }
}

impl Clone for ResolvedFilterSpec {
    fn clone(&self) -> (res: Self)
        ensures
            res.action == self.action,
            res.state_refs@ == self.state_refs@,
    {
        ResolvedFilterSpec { action: self.action, state_refs: clone_strings(&self.state_refs) }
    }
}

} // verus!
