//! JSON documents as the compiler hands them over: the abstract syntax tree
//! and the symbol table. Object members keep the order they were given in.

use vstd::prelude::*;
use crate::strings::{str_eq, concat3, decimal, signed_decimal, u64_to_string, i64_to_string, debug_str,
    debug_quoted};

verus! {

/// A JSON number, read the three ways the parsers read one: as a signed
/// integer, as an unsigned integer, and as a float (kept by its bit pattern).
#[derive(Debug)]
pub struct JsonNumber {
    /// The value when it is an integer that fits in `i64`.
    pub int: Option<i64>,
    /// The value when it is an integer that fits in `u64`.
    pub uint: Option<u64>,
    /// The IEEE-754 bits of the value read as a float.
    pub float_bits: u64,
    /// For a number that is not an integer, its shortest decimal text, as
    /// the JSON reader writes it; empty for an integer.
    pub float_text: String,
}

/// A JSON value.
#[derive(Debug)]
pub enum JsonValue {
    Null,
    Bool(bool),
    Number(JsonNumber),
    String(String),
    Array(Vec<JsonValue>),
    Object(Vec<(String, JsonValue)>),
}

/// The value of the first member named `key`, if any.
pub open spec fn members_get(s: Seq<(String, JsonValue)>, key: Seq<char>) -> Option<JsonValue>
    decreases s.len(),
{
    if s.len() == 0 {
        None
    } else if s[0].0@ == key {
        Some(s[0].1)
    } else {
        members_get(s.drop_first(), key)
    }
}

/// The member `key` of an object; nothing for any other value.
pub open spec fn json_get(v: JsonValue, key: Seq<char>) -> Option<JsonValue> {
    match v {
        JsonValue::Object(m) => members_get(m@, key),
        _ => None,
    }
}

/// The text of a string value.
pub open spec fn json_str(v: JsonValue) -> Option<Seq<char>> {
    match v {
        JsonValue::String(s) => Some(s@),
        _ => None,
    }
}

/// The text of the member `key`, when it is a string.
pub open spec fn json_get_str(v: JsonValue, key: Seq<char>) -> Option<Seq<char>> {
    match json_get(v, key) {
        Some(m) => json_str(m),
        None => None,
    }
}

/// The name of the kind of a value.
pub open spec fn json_kind(v: JsonValue) -> Seq<char> {
    match v {
        JsonValue::Null => "null"@,
        JsonValue::Bool(_) => "bool"@,
        JsonValue::Number(_) => "number"@,
        JsonValue::String(_) => "string"@,
        JsonValue::Array(_) => "array"@,
        JsonValue::Object(_) => "object"@,
    }
}

impl JsonValue {
    /// The member `key` of an object; `None` for a missing member or a value
    /// that is not an object.
    pub fn get(&self, key: &str) -> (res: Option<&JsonValue>)
        ensures
            match res {
                Some(r) => json_get(*self, key@) == Some(*r),
                None => json_get(*self, key@) is None,
            },
    {
        match self {
            JsonValue::Object(members) => {
                let mut i: usize = 0;
                proof {
                    assert(members@.subrange(0, members@.len() as int) =~= members@);
                }
                while i < members.len()
                    invariant
                        i <= members@.len(),
                        *self == JsonValue::Object(*members),
                        members_get(members@, key@) == members_get(members@.subrange(i as int, members@.len() as int), key@),
                    decreases members@.len() - i,
                {
                    let ghost rest = members@.subrange(i as int, members@.len() as int);
                    proof {
                        assert(rest.drop_first() =~= members@.subrange(i + 1, members@.len() as int));
                        assert(rest[0] == members@[i as int]);
                    }
                    if str_eq(members[i].0.as_str(), key) {
                        proof {
                            assert(members_get(rest, key@) == Some(members@[i as int].1));
                        }
                        return Some(&members[i].1);
                    }
                    i = i + 1;
                }
                None
            },
            _ => None,
        }
    }

    /// The text of a string value.
    pub fn as_str(&self) -> (res: Option<&str>)
        ensures
            match res {
                Some(s) => json_str(*self) == Some(s@),
                None => json_str(*self) is None,
            },
    {
        match self {
            JsonValue::String(s) => Some(s.as_str()),
            _ => None,
        }
    }

    /// The text of the member `key`, when it is a string.
    pub fn get_str(&self, key: &str) -> (res: Option<&str>)
        ensures
            match res {
                Some(s) => json_get_str(*self, key@) == Some(s@),
                None => json_get_str(*self, key@) is None,
            },
    {
        match self.get(key) {
            Some(v) => v.as_str(),
            None => None,
        }
    }

    /// The items of an array value.
    pub fn as_array(&self) -> (res: Option<&Vec<JsonValue>>)
        ensures
            match res {
                Some(a) => *self == JsonValue::Array(*a),
                None => !(*self is Array),
            },
    {
        match self {
            JsonValue::Array(a) => Some(a),
            _ => None,
        }
    }

    /// The members of an object value.
    pub fn as_object(&self) -> (res: Option<&Vec<(String, JsonValue)>>)
        ensures
            match res {
                Some(m) => *self == JsonValue::Object(*m),
                None => !(*self is Object),
            },
    {
        match self {
            JsonValue::Object(m) => Some(m),
            _ => None,
        }
    }

    /// A number that is an integer fitting in `i64`.
    pub fn as_i64(&self) -> (res: Option<i64>)
        ensures
            res == (match *self {
                JsonValue::Number(n) => n.int,
                _ => None,
            }),
    {
        match self {
            JsonValue::Number(n) => n.int,
            _ => None,
        }
    }

    /// A number that is an integer fitting in `u64`.
    pub fn as_u64(&self) -> (res: Option<u64>)
        ensures
            res == (match *self {
                JsonValue::Number(n) => n.uint,
                _ => None,
            }),
    {
        match self {
            JsonValue::Number(n) => n.uint,
            _ => None,
        }
    }

    /// A number read as a float, by its bit pattern.
    pub fn as_float_bits(&self) -> (res: Option<u64>)
        ensures
            res == (match *self {
                JsonValue::Number(n) => Some(n.float_bits),
                _ => None,
            }),
    {
        match self {
            JsonValue::Number(n) => Some(n.float_bits),
            _ => None,
        }
    }

    /// A boolean value.
    pub fn as_bool(&self) -> (res: Option<bool>)
        ensures
            res == (match *self {
                JsonValue::Bool(b) => Some(b),
                _ => None,
            }),
    {
        match self {
            JsonValue::Bool(b) => Some(*b),
            _ => None,
        }
    }

    /// Whether the value is `null`.
    pub fn is_null(&self) -> (res: bool)
        ensures
            res == (*self is Null),
    {
        match self {
            JsonValue::Null => true,
            _ => false,
        }
    }

    /// Whether the value is an object.
    pub fn is_object(&self) -> (res: bool)
        ensures
            res == (*self is Object),
    {
        match self {
            JsonValue::Object(_) => true,
            _ => false,
        }
    }

    /// The name of the kind of the value.
    pub fn kind_name(&self) -> (res: &'static str)
        ensures
            res@ == json_kind(*self),
    {
        match self {
            JsonValue::Null => "null",
            JsonValue::Bool(_) => "bool",
            JsonValue::Number(_) => "number",
            JsonValue::String(_) => "string",
            JsonValue::Array(_) => "array",
            JsonValue::Object(_) => "object",
        }
    }
}

/// Two JSON values are the same document: same kinds, same scalars, same
/// items and members in the same order.
pub open spec fn json_same(a: JsonValue, b: JsonValue) -> bool
    decreases a,
{
    match a {
        JsonValue::Array(x) => match b {
            JsonValue::Array(y) => x@.len() == y@.len()
                && forall|i: int| 0 <= i < x@.len() ==> json_same(#[trigger] x@[i], y@[i]),
            _ => false,
        },
        JsonValue::Object(x) => match b {
            JsonValue::Object(y) => x@.len() == y@.len()
                && forall|i: int| 0 <= i < x@.len() ==> (#[trigger] x@[i]).0@ == y@[i].0@ && json_same(x@[i].1, y@[i].1),
            _ => false,
        },
        _ => a == b,
    }
}

/// A copy of a JSON value.
pub fn clone_json(v: &JsonValue) -> (res: JsonValue)
    ensures
        json_same(*v, res),
    decreases v,
{
    match v {
        JsonValue::Null => JsonValue::Null,
        JsonValue::Bool(b) => JsonValue::Bool(*b),
        JsonValue::Number(n) => JsonValue::Number(JsonNumber {
            int: n.int,
            uint: n.uint,
            float_bits: n.float_bits,
            float_text: n.float_text.clone(),
        }),
        JsonValue::String(s) => JsonValue::String(s.clone()),
        JsonValue::Array(items) => {
            let mut out: Vec<JsonValue> = Vec::new();
            let mut i: usize = 0;
            while i < items.len()
                invariant
                    i <= items@.len(),
                    *v == JsonValue::Array(*items),
                    out@.len() == i,
                    forall|k: int| 0 <= k < i ==> json_same(#[trigger] items@[k], out@[k]),
                decreases items@.len() - i,
            {
                proof {
                    assert(decreases_to!(*items => items[i as int]));
                    assert(decreases_to!(*v => (*v)->Array_0));
                }
                let c = clone_json(&items[i]);
                out.push(c);
                i = i + 1;
            }
            JsonValue::Array(out)
        },
        JsonValue::Object(members) => {
            let mut out: Vec<(String, JsonValue)> = Vec::new();
            let mut i: usize = 0;
            while i < members.len()
                invariant
                    i <= members@.len(),
                    *v == JsonValue::Object(*members),
                    out@.len() == i,
                    forall|k: int| 0 <= k < i ==> (#[trigger] members@[k]).0@ == out@[k].0@
                        && json_same(members@[k].1, out@[k].1),
                decreases members@.len() - i,
            {
                proof {
                    assert(decreases_to!(*members => members[i as int]));
                    assert(decreases_to!(members[i as int] => members[i as int].1));
                    assert(decreases_to!(*v => (*v)->Object_0));
                }
                let c = clone_json(&members[i].1);
                out.push((members[i].0.clone(), c));
                i = i + 1;
            }
            JsonValue::Object(out)
        },
    }
}

/// The text of a number: an integer in decimal, with a leading '-' when
/// negative; any other number by its shortest decimal text.
pub open spec fn number_text(n: JsonNumber) -> Seq<char> {
    match n.uint {
        Some(u) => decimal(u as nat),
        None => match n.int {
            Some(i) => signed_decimal(i as int),
            None => n.float_text@,
        },
    }
}

/// The debug rendering of a JSON value: `Null`, `Bool(..)`, `Number(..)`,
/// `String("..")`, `Array [..]` with the items separated by ", ", and
/// `Object {..}` with `"key": value` members separated by ", ".
pub open spec fn json_debug_text(v: JsonValue) -> Seq<char>
    decreases v, 1nat, 0nat,
{
    match v {
        JsonValue::Null => "Null"@,
        JsonValue::Bool(b) => if b { "Bool(true)"@ } else { "Bool(false)"@ },
        JsonValue::Number(n) => "Number("@ + number_text(n) + ")"@,
        JsonValue::String(s) => "String("@ + debug_quoted(s@) + ")"@,
        JsonValue::Array(x) => "Array ["@ + items_debug_text(v, x@.len()) + "]"@,
        JsonValue::Object(m) => "Object {"@ + members_debug_text(v, m@.len()) + "}"@,
    }
}

/// The renderings of the first `k` items of the array `v`, separated by ", ".
pub open spec fn items_debug_text(v: JsonValue, k: nat) -> Seq<char>
    decreases v, 0nat, k,
{
    match v {
        JsonValue::Array(x) => if k == 0 || k > x@.len() {
            Seq::empty()
        } else {
            proof {
                assert(decreases_to!(x => x@[k - 1]));
            }
            if k == 1 {
                json_debug_text(x@[0])
            } else {
                items_debug_text(v, (k - 1) as nat) + ", "@ + json_debug_text(x@[k - 1])
            }
        },
        _ => Seq::empty(),
    }
}

/// The renderings `"key": value` of the first `k` members of the object `v`,
/// separated by ", ".
pub open spec fn members_debug_text(v: JsonValue, k: nat) -> Seq<char>
    decreases v, 0nat, k,
{
    match v {
        JsonValue::Object(m) => if k == 0 || k > m@.len() {
            Seq::empty()
        } else {
            proof {
                assert(decreases_to!(m => m@[k - 1]));
                assert(decreases_to!(m@[k - 1] => m@[k - 1].1));
            }
            let member = debug_quoted(m@[k - 1].0@) + ": "@ + json_debug_text(m@[k - 1].1);
            if k == 1 {
                member
            } else {
                members_debug_text(v, (k - 1) as nat) + ", "@ + member
            }
        },
        _ => Seq::empty(),
    }
}

/// The debug rendering of a JSON value, used in diagnostics.
pub fn debug_json(v: &JsonValue) -> (res: String)
    ensures
        res@ == json_debug_text(*v),
    decreases v,
{
    match v {
        JsonValue::Null => String::from_str("Null"),
        JsonValue::Bool(b) => if *b { String::from_str("Bool(true)") } else { String::from_str("Bool(false)") },
        JsonValue::Number(n) => {
            let t = match n.uint {
                Some(u) => u64_to_string(u),
                None => match n.int {
                    Some(i) => i64_to_string(i),
                    None => n.float_text.clone(),
                },
            };
            concat3("Number(", t.as_str(), ")")
        },
        JsonValue::String(s) => {
            let q = debug_str(s.as_str());
            concat3("String(", q.as_str(), ")")
        },
        JsonValue::Array(items) => {
            let mut out = String::from_str("Array [");
            let mut i: usize = 0;
            while i < items.len()
                invariant
                    i <= items@.len(),
                    *v == JsonValue::Array(*items),
                    out@ == "Array ["@ + items_debug_text(*v, i as nat),
                decreases items@.len() - i,
            {
                proof {
                    assert(decreases_to!(*items => items[i as int]));
                    assert(decreases_to!(*v => (*v)->Array_0));
                }
                let t = debug_json(&items[i]);
                if i > 0 {
                    out.append(", ");
                }
                out.append(t.as_str());
                i = i + 1;
            }
            out.append("]");
            out
        },
        JsonValue::Object(members) => {
            let mut out = String::from_str("Object {");
            let mut i: usize = 0;
            while i < members.len()
                invariant
                    i <= members@.len(),
                    *v == JsonValue::Object(*members),
                    out@ == "Object {"@ + members_debug_text(*v, i as nat),
                decreases members@.len() - i,
            {
                proof {
                    assert(decreases_to!(*members => members[i as int]));
                    assert(decreases_to!(members[i as int] => members[i as int].1));
                    assert(decreases_to!(*v => (*v)->Object_0));
                }
                let t = debug_json(&members[i].1);
                let k = debug_str(members[i].0.as_str());
                if i > 0 {
                    out.append(", ");
                }
                out.append(k.as_str());
                out.append(": ");
                out.append(t.as_str());
                i = i + 1;
            }
            out.append("}");
            out
        },
    }
}

} // verus!
