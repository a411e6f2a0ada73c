//! Resolution of field values against the resolved variables.

use vstd::prelude::*;
use crate::strings::{concat2, concat4};
use crate::string_map::StringMap;
use crate::types::common::{Value, ResolvedValue};
use crate::types::variable::ResolvedVariable;
use crate::resolution::error::FieldResolutionError;

verus! {

/// The strings of `s` joined by ", ".
pub open spec fn join_comma(s: Seq<Seq<char>>) -> Seq<char>
    decreases s.len(),
{
    if s.len() == 0 {
        Seq::empty()
    } else if s.len() == 1 {
        s[0]
    } else {
        join_comma(s.drop_last()) + ", "@ + s.last()
    }
}

/// The message of a variable that cannot be resolved in `context`, naming
/// the variables that are resolved.
pub open spec fn unresolved_message(context: Seq<char>, name: Seq<char>, vars: StringMap<ResolvedVariable>) -> Seq<char> {
    if vars.entries@.len() == 0 {
        context + " - no variables have been resolved yet"@
    } else {
        context + " - variable '"@ + name + "' not found (available: "@ + join_comma(vars.spec_keys()) + ")"@
    }
}

/// The value of `v` once resolved against `vars`; `None` for a reference
/// to a variable that is not resolved.
pub open spec fn field_value(v: Value, vars: StringMap<ResolvedVariable>) -> Option<ResolvedValue> {
    match v {
        Value::String(s) => Some(ResolvedValue::String(s)),
        Value::Integer(i) => Some(ResolvedValue::Integer(i)),
        Value::Float(f) => Some(ResolvedValue::Float(f)),
        Value::Boolean(b) => Some(ResolvedValue::Boolean(b)),
        Value::Variable(n) => if vars.has(n@) { Some(vars.at(n@).value) } else { None },
    }
}

/// The value of a literal; `None` for a variable reference.
pub open spec fn literal_value(v: Value) -> Option<ResolvedValue> {
    match v {
        Value::String(s) => Some(ResolvedValue::String(s)),
        Value::Integer(i) => Some(ResolvedValue::Integer(i)),
        Value::Float(f) => Some(ResolvedValue::Float(f)),
        Value::Boolean(b) => Some(ResolvedValue::Boolean(b)),
        Value::Variable(_) => None,
    }
}

/// A literal resolves to itself, whatever variables are resolved: a string
/// to the same string, an integer to the same integer, a float to the same
/// bits, a boolean to the same boolean. A variable reference resolves to the
/// value of the resolved variable of that name, and to nothing when no
/// variable of that name is resolved.
pub proof fn lemma_literals_resolve_to_themselves(vars: StringMap<ResolvedVariable>)
    ensures
        forall|s: String| #[trigger] field_value(Value::String(s), vars) == Some(ResolvedValue::String(s))
            && literal_value(Value::String(s)) == Some(ResolvedValue::String(s)),
        forall|i: i64| #[trigger] field_value(Value::Integer(i), vars) == Some(ResolvedValue::Integer(i))
            && literal_value(Value::Integer(i)) == Some(ResolvedValue::Integer(i)),
        forall|f: u64| #[trigger] field_value(Value::Float(f), vars) == Some(ResolvedValue::Float(f))
            && literal_value(Value::Float(f)) == Some(ResolvedValue::Float(f)),
        forall|b: bool| #[trigger] field_value(Value::Boolean(b), vars) == Some(ResolvedValue::Boolean(b))
            && literal_value(Value::Boolean(b)) == Some(ResolvedValue::Boolean(b)),
        forall|v: Value| !(v is Variable) ==> #[trigger] field_value(v, vars) == literal_value(v),
        forall|n: String| vars.has(n@) ==> #[trigger] field_value(Value::Variable(n), vars) == Some(vars.at(n@).value),
        forall|n: String| !vars.has(n@) ==> #[trigger] field_value(Value::Variable(n), vars) is None,
{
}

/// The keys of the resolved variables, joined by ", ".
fn join_variable_names(vars: &StringMap<ResolvedVariable>) -> (res: String)
    ensures
        res@ == join_comma(vars.spec_keys()),
{
    let ghost keys = vars.spec_keys();
    let mut out = String::new();
    let mut i: usize = 0;
    proof {
        assert(keys.subrange(0, 0) =~= Seq::<Seq<char>>::empty());
    }
    while i < vars.entries.len()
        invariant
            i <= vars.entries@.len(),
            keys == vars.spec_keys(),
            out@ == join_comma(keys.subrange(0, i as int)),
        decreases vars.entries@.len() - i,
    {
        proof {
            assert(keys.subrange(0, i + 1).drop_last() =~= keys.subrange(0, i as int));
            assert(keys.subrange(0, i + 1).last() == vars.entries@[i as int].0@);
        }
        if i > 0 {
            out.append(", ");
        }
        out.append(vars.entries[i].0.as_str());
        proof {
            if i == 0 {
                assert(keys.subrange(0, 1)[0] == vars.entries@[0].0@);
            }
        }
        i = i + 1;
    }
    proof {
        assert(keys.subrange(0, keys.len() as int) =~= keys);
    }
    out
}

/// Resolves field values; a variable reference takes the value of the
/// resolved variable.
#[derive(Debug)]
pub struct FieldResolver;

impl FieldResolver {
    /// A field resolver.
    pub fn new() -> (res: FieldResolver)
        ensures
            res == FieldResolver,
    {
        FieldResolver
    }

    /// Resolve `value`: a literal gives itself, a variable reference the
    /// value of the resolved variable. A reference to a variable that is not
    /// resolved is an error whose message names the resolved variables.
    pub fn resolve_value(&self, value: &Value, context: &str, resolved_variables: &StringMap<ResolvedVariable>)
        -> (res: Result<ResolvedValue, FieldResolutionError>)
        requires
            resolved_variables.wf(),
        ensures
            *value matches Value::Boolean(b) ==> res == Ok::<ResolvedValue, FieldResolutionError>(ResolvedValue::Boolean(b)),
            *value matches Value::Integer(i) ==> res == Ok::<ResolvedValue, FieldResolutionError>(ResolvedValue::Integer(i)),
            *value matches Value::Float(f) ==> res == Ok::<ResolvedValue, FieldResolutionError>(ResolvedValue::Float(f)),
            *value matches Value::String(t) ==> res matches Ok(ResolvedValue::String(r)) && r@ == t@,
            match field_value(*value, *resolved_variables) {
                Some(v) => res == Ok::<ResolvedValue, FieldResolutionError>(v),
                None => res matches Err(FieldResolutionError::VariableReferenceNotAllowed { variable_name, context: c })
                    && value matches Value::Variable(n) && variable_name@ == n@
                    && c@ == unresolved_message(context@, n@, *resolved_variables),
            },
    {
        match value {
            Value::String(s) => Ok(ResolvedValue::String(s.clone())),
            Value::Integer(i) => Ok(ResolvedValue::Integer(*i)),
            Value::Float(f) => Ok(ResolvedValue::Float(*f)),
            Value::Boolean(b) => Ok(ResolvedValue::Boolean(*b)),
            Value::Variable(var_name) => {
                match resolved_variables.get(var_name.as_str()) {
                    Some(rv) => Ok(rv.value.clone()),
                    None => {
                        let error_context = if resolved_variables.len() == 0 {
                            concat2(context, " - no variables have been resolved yet")
                        } else {
                            let names = join_variable_names(resolved_variables);
                            let mut m = concat4(context, " - variable '", var_name.as_str(), "' not found (available: ");
                            m.append(names.as_str());
                            m.append(")");
                            m
                        };
                        Err(FieldResolutionError::VariableReferenceNotAllowed {
                            variable_name: var_name.clone(),
                            context: error_context,
                        })
                    },
                }
            },
        }
    }

    /// Resolve `value` with no variable resolved: literals give themselves,
    /// every variable reference is an error.
    pub fn resolve_value_direct(&self, value: &Value, context: &str) -> (res: Result<ResolvedValue, FieldResolutionError>)
        ensures
            *value matches Value::Boolean(b) ==> res == Ok::<ResolvedValue, FieldResolutionError>(ResolvedValue::Boolean(b)),
            *value matches Value::Integer(i) ==> res == Ok::<ResolvedValue, FieldResolutionError>(ResolvedValue::Integer(i)),
            *value matches Value::Float(f) ==> res == Ok::<ResolvedValue, FieldResolutionError>(ResolvedValue::Float(f)),
            *value matches Value::String(t) ==> res matches Ok(ResolvedValue::String(r)) && r@ == t@,
            match literal_value(*value) {
                Some(v) => res == Ok::<ResolvedValue, FieldResolutionError>(v),
                None => res matches Err(FieldResolutionError::VariableReferenceNotAllowed { variable_name, context: c })
                    && value matches Value::Variable(n) && variable_name@ == n@
                    && c@ == context@ + " - no variables have been resolved yet"@,
            },
    {
        let empty: StringMap<ResolvedVariable> = StringMap::new();
        proof {
            assert(empty.entries@ =~= Seq::<(String, ResolvedVariable)>::empty());
        }
        self.resolve_value(value, context, &empty)
    }
}

impl Default for FieldResolver {
    fn default() -> (res: FieldResolver)
        ensures
            res == FieldResolver,
    {
        FieldResolver::new()
    }
}

} // verus!
