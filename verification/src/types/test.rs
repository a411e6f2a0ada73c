//! TEST specifications of criteria.

use vstd::prelude::*;
use crate::strings::str_eq;

verus! {

/// How many collected items must exist.
#[derive(Debug, Clone, Copy, PartialEq, Eq, Structural)]
pub enum ExistenceCheck {
    Any,
    All,
    NoneExist,
    AtLeastOne,
    OnlyOne,
}

/// How many existing items must satisfy the states.
#[derive(Debug, Clone, Copy, PartialEq, Eq, Structural)]
pub enum ItemCheck {
    All,
    AtLeastOne,
    OnlyOne,
    NoneSatisfy,
}

/// How the results of several states are joined.
#[derive(Debug, Clone, Copy, PartialEq, Eq, Structural)]
pub enum StateJoinOp {
    And,
    Or,
    One,
}

/// The spelling of each existence check.
pub open spec fn existence_check_name(c: ExistenceCheck) -> Seq<char> {
    match c {
        ExistenceCheck::Any => "any"@,
        ExistenceCheck::All => "all"@,
        ExistenceCheck::NoneExist => "none"@,
        ExistenceCheck::AtLeastOne => "at_least_one"@,
        ExistenceCheck::OnlyOne => "only_one"@,
    }
}

/// The spelling of each item check.
pub open spec fn item_check_name(c: ItemCheck) -> Seq<char> {
    match c {
        ItemCheck::All => "all"@,
        ItemCheck::AtLeastOne => "at_least_one"@,
        ItemCheck::OnlyOne => "only_one"@,
        ItemCheck::NoneSatisfy => "none_satisfy"@,
    }
}

/// The existence check a spelling names, if any.
pub open spec fn existence_check_of(s: Seq<char>) -> Option<ExistenceCheck> {
    if s == "any"@ {
        Some(ExistenceCheck::Any)
    } else if s == "all"@ {
        Some(ExistenceCheck::All)
    } else if s == "none"@ {
        Some(ExistenceCheck::NoneExist)
    } else if s == "at_least_one"@ {
        Some(ExistenceCheck::AtLeastOne)
    } else if s == "only_one"@ {
        Some(ExistenceCheck::OnlyOne)
    } else {
        None
    }
}

/// The item check a spelling names, if any.
pub open spec fn item_check_of(s: Seq<char>) -> Option<ItemCheck> {
    if s == "all"@ {
        Some(ItemCheck::All)
    } else if s == "at_least_one"@ {
        Some(ItemCheck::AtLeastOne)
    } else if s == "only_one"@ {
        Some(ItemCheck::OnlyOne)
    } else if s == "none_satisfy"@ {
        Some(ItemCheck::NoneSatisfy)
    } else {
        None
    }
}

/// The state join operator a spelling names, if any.
pub open spec fn state_join_op_of(s: Seq<char>) -> Option<StateJoinOp> {
    if s == "AND"@ {
        Some(StateJoinOp::And)
    } else if s == "OR"@ {
        Some(StateJoinOp::Or)
    } else if s == "ONE"@ {
        Some(StateJoinOp::One)
    } else {
        None
    }
}

/// The keyword of each state join operator.
pub open spec fn state_join_op_name(op: StateJoinOp) -> Seq<char> {
    match op {
        StateJoinOp::And => "AND"@,
        StateJoinOp::Or => "OR"@,
        StateJoinOp::One => "ONE"@,
    }
}

/// Parsing a state operator keyword gives the operator of that spelling
/// (`AND` and, `OR` or, `ONE` exactly one), and only those keywords parse.
pub proof fn lemma_state_join_op_round_trip(op: StateJoinOp)
    ensures
        state_join_op_of(state_join_op_name(op)) == Some(op),
        forall|s: Seq<char>| #[trigger] state_join_op_of(s) == Some(op) ==> s == state_join_op_name(op),
{
    reveal_strlit("AND");
    reveal_strlit("OR");
    reveal_strlit("ONE");
    assert("AND"@.len() == 3 && "OR"@.len() == 2 && "ONE"@.len() == 3 && "AND"@[0] == 'A' && "ONE"@[0] == 'O');
}

impl StateJoinOp {
    /// Parse a state join operator: `AND`, `OR` or `ONE`.
    pub fn from_str(s: &str) -> (res: Option<StateJoinOp>)
        ensures
            res == state_join_op_of(s@),
            match res {
                Some(op) => state_join_op_name(op) == s@,
                None => forall|op: StateJoinOp| state_join_op_name(op) != s@,
            },
    {
        if str_eq(s, "AND") {
            Some(StateJoinOp::And)
        } else if str_eq(s, "OR") {
            Some(StateJoinOp::Or)
        } else if str_eq(s, "ONE") {
            Some(StateJoinOp::One)
        } else {
            proof {
                assert forall|op: StateJoinOp| state_join_op_name(op) != s@ by {
                    match op {
                        StateJoinOp::And => {},
                        StateJoinOp::Or => {},
                        StateJoinOp::One => {},
                    }
                }
            }
            None
        }
    }
}

/// Parsing an existence check or item check spelling gives the check of
/// that spelling, and only those spellings parse.
pub proof fn lemma_check_names_round_trip(e: ExistenceCheck, c: ItemCheck)
    ensures
        existence_check_of(existence_check_name(e)) == Some(e),
        forall|s: Seq<char>| #[trigger] existence_check_of(s) == Some(e) ==> s == existence_check_name(e),
        item_check_of(item_check_name(c)) == Some(c),
        forall|s: Seq<char>| #[trigger] item_check_of(s) == Some(c) ==> s == item_check_name(c),
{
    reveal_strlit("any");
    reveal_strlit("all");
    reveal_strlit("none");
    reveal_strlit("at_least_one");
    reveal_strlit("only_one");
    reveal_strlit("none_satisfy");
    assert("any"@.len() == 3 && "all"@.len() == 3 && "none"@.len() == 4 && "at_least_one"@.len() == 12
        && "only_one"@.len() == 8 && "none_satisfy"@.len() == 12 && "any"@[1] == 'n' && "all"@[1] == 'l'
        && "at_least_one"@[0] == 'a' && "none_satisfy"@[0] == 'n');
}

impl ExistenceCheck {
    /// Parse an existence check.
    pub fn from_str(s: &str) -> (res: Option<ExistenceCheck>)
        ensures
            res == existence_check_of(s@),
            match res {
                Some(c) => existence_check_name(c) == s@,
                None => forall|c: ExistenceCheck| existence_check_name(c) != s@,
            },
    {
        if str_eq(s, "any") {
            Some(ExistenceCheck::Any)
        } else if str_eq(s, "all") {
            Some(ExistenceCheck::All)
        } else if str_eq(s, "none") {
            Some(ExistenceCheck::NoneExist)
        } else if str_eq(s, "at_least_one") {
            Some(ExistenceCheck::AtLeastOne)
        } else if str_eq(s, "only_one") {
            Some(ExistenceCheck::OnlyOne)
        } else {
            proof {
                assert forall|c: ExistenceCheck| existence_check_name(c) != s@ by {
                    match c {
                        ExistenceCheck::Any => {},
                        ExistenceCheck::All => {},
                        ExistenceCheck::NoneExist => {},
                        ExistenceCheck::AtLeastOne => {},
                        ExistenceCheck::OnlyOne => {},
                    }
                }
            }
            None
        }
    }
}

impl ItemCheck {
    /// Parse an item check.
    pub fn from_str(s: &str) -> (res: Option<ItemCheck>)
        ensures
            res == item_check_of(s@),
            match res {
                Some(c) => item_check_name(c) == s@,
                None => forall|c: ItemCheck| item_check_name(c) != s@,
            },
    {
        if str_eq(s, "all") {
            Some(ItemCheck::All)
        } else if str_eq(s, "at_least_one") {
            Some(ItemCheck::AtLeastOne)
        } else if str_eq(s, "only_one") {
            Some(ItemCheck::OnlyOne)
        } else if str_eq(s, "none_satisfy") {
            Some(ItemCheck::NoneSatisfy)
        } else {
            proof {
                assert forall|c: ItemCheck| item_check_name(c) != s@ by {
                    match c {
                        ItemCheck::All => {},
                        ItemCheck::AtLeastOne => {},
                        ItemCheck::OnlyOne => {},
                        ItemCheck::NoneSatisfy => {},
                    }
                }
            }
            None
        }
    }
}

/// The TEST line of a criterion.
#[derive(Debug, Clone, Copy, PartialEq, Eq, Structural)]
pub struct TestSpecification {
    pub existence_check: ExistenceCheck,
    pub item_check: ItemCheck,
    pub state_operator: Option<StateJoinOp>,
}

impl TestSpecification {
    /// A test specification with the given checks and state operator.
    pub fn new(existence_check: ExistenceCheck, item_check: ItemCheck, state_operator: Option<StateJoinOp>) -> (res: TestSpecification)
        ensures
            res == (TestSpecification { existence_check, item_check, state_operator }),
    {
        TestSpecification { existence_check, item_check, state_operator }
    }

    /// A test specification without a state operator.
    pub fn simple(existence_check: ExistenceCheck, item_check: ItemCheck) -> (res: TestSpecification)
        ensures
            res == (TestSpecification { existence_check, item_check, state_operator: None }),
    {
        TestSpecification { existence_check, item_check, state_operator: None }
    }
}

} // verus!
