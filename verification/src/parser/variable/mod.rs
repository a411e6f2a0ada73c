//! Variables: dependency collection and analysis.

use vstd::prelude::*;
use crate::strings::{concat2, concat3, to_owned_string, usize_to_string, decimal, trimmed, trim_str};
use crate::json::{JsonValue, json_get, json_get_str};
use crate::types::common::{Value, DataType, data_type_name};
use crate::types::resolution_context::{ResolutionContext, ValidationType, deferrals, context_wf};
use crate::types::variable::{VariableDeclaration, init_dependency, has_literal_init};
use crate::resolution::error::ResolutionError;
use crate::resolution::dag::views;

pub mod error;

verus! {

/// How one variable depends on another.
#[derive(Debug, Clone, Copy, PartialEq, Eq, Structural)]
pub enum VariableDependencyType {
    /// `VAR x = VAR y`.
    Initialization,
}

/// A variable initialised from another variable.
#[derive(Debug)]
pub struct VariableDependency {
    pub source_variable: String,
    pub target_variable: String,
    pub dependency_type: VariableDependencyType,
}

/// The variables split by how they get their value.
#[derive(Debug)]
pub struct VariableDistribution {
    /// Variables without an initial value (computed by RUN operations).
    pub computed: Vec<String>,
    /// Variables with a literal initial value.
    pub literal: Vec<String>,
    /// Variables initialised from another variable: (variable, source).
    pub reference: Vec<(String, String)>,
}

/// The initialisation dependencies of a list of variables, as
/// (variable, variable it is initialised from), in order.
pub open spec fn init_dependencies(s: Seq<VariableDeclaration>) -> Seq<(Seq<char>, Seq<char>)>
    decreases s.len(),
{
    if s.len() == 0 {
        Seq::empty()
    } else {
        init_dependencies(s.drop_last()) + match init_dependency(s.last()) {
            Some(t) => seq![(s.last().name@, t)],
            None => Seq::empty(),
        }
    }
}

/// The dependencies of a list, as plain values.
pub open spec fn dependency_pairs(s: Seq<VariableDependency>) -> Seq<(Seq<char>, Seq<char>)> {
    s.map_values(|d: VariableDependency| (d.source_variable@, d.target_variable@))
}

/// The initialisation dependencies among the variables, in declaration order.
pub fn collect_variable_dependencies(variables: &Vec<VariableDeclaration>) -> (res: Vec<VariableDependency>)
    ensures
        dependency_pairs(res@) == init_dependencies(variables@),
        forall|i: int| 0 <= i < res@.len() ==> (#[trigger] res@[i]).dependency_type == VariableDependencyType::Initialization,
{
    let mut out: Vec<VariableDependency> = Vec::new();
    let mut i: usize = 0;
    while i < variables.len()
        invariant
            i <= variables@.len(),
            dependency_pairs(out@) == init_dependencies(variables@.subrange(0, i as int)),
            forall|j: int| 0 <= j < out@.len() ==> (#[trigger] out@[j]).dependency_type == VariableDependencyType::Initialization,
        decreases variables@.len() - i,
    {
        proof {
            assert(variables@.subrange(0, i + 1).drop_last() =~= variables@.subrange(0, i as int));
            assert(variables@.subrange(0, i + 1).last() == variables@[i as int]);
        }
        let v = &variables[i];
        let ghost before = out@;
        match v.get_initialization_dependency() {
            Some(target) => {
                out.push(VariableDependency {
                    source_variable: v.name.clone(),
                    target_variable: crate::strings::to_owned_string(target),
                    dependency_type: VariableDependencyType::Initialization,
                });
                proof {
                    assert(dependency_pairs(out@) =~= dependency_pairs(before) + seq![(v.name@, target@)]);
                }
            },
            None => {
                proof {
                    assert(dependency_pairs(out@) =~= dependency_pairs(before) + Seq::<(Seq<char>, Seq<char>)>::empty());
                }
            },
        }
        i = i + 1;
    }
    proof {
        assert(variables@.subrange(0, variables@.len() as int) =~= variables@);
    }
    out
}

/// The names of the variables without an initial value, in order.
pub open spec fn computed_names(s: Seq<VariableDeclaration>) -> Seq<Seq<char>>
    decreases s.len(),
{
    if s.len() == 0 {
        Seq::empty()
    } else {
        computed_names(s.drop_last()) + if s.last().initial_value is None { seq![s.last().name@] } else { Seq::empty() }
    }
}

/// The names of the variables with a literal initial value, in order.
pub open spec fn literal_names(s: Seq<VariableDeclaration>) -> Seq<Seq<char>>
    decreases s.len(),
{
    if s.len() == 0 {
        Seq::empty()
    } else {
        literal_names(s.drop_last()) + if has_literal_init(s.last()) { seq![s.last().name@] } else { Seq::empty() }
    }
}

/// Split the variables by how they get their value: computed, literal, or
/// initialised from another variable; each list keeps declaration order.
pub fn analyze_variable_distribution(variables: &Vec<VariableDeclaration>) -> (res: VariableDistribution)
    ensures
        res.computed@.map_values(|x: String| x@) == computed_names(variables@),
        res.literal@.map_values(|x: String| x@) == literal_names(variables@),
        res.reference@.map_values(|p: (String, String)| (p.0@, p.1@)) == init_dependencies(variables@),
{
    let mut computed: Vec<String> = Vec::new();
    let mut literal: Vec<String> = Vec::new();
    let mut reference: Vec<(String, String)> = Vec::new();
    let mut i: usize = 0;
    while i < variables.len()
        invariant
            i <= variables@.len(),
            computed@.map_values(|x: String| x@) == computed_names(variables@.subrange(0, i as int)),
            literal@.map_values(|x: String| x@) == literal_names(variables@.subrange(0, i as int)),
            reference@.map_values(|p: (String, String)| (p.0@, p.1@)) == init_dependencies(variables@.subrange(0, i as int)),
        decreases variables@.len() - i,
    {
        proof {
            assert(variables@.subrange(0, i + 1).drop_last() =~= variables@.subrange(0, i as int));
            assert(variables@.subrange(0, i + 1).last() == variables@[i as int]);
        }
        let v = &variables[i];
        let ghost c0 = computed@.map_values(|x: String| x@);
        let ghost l0 = literal@.map_values(|x: String| x@);
        let ghost r0 = reference@.map_values(|p: (String, String)| (p.0@, p.1@));
        if v.is_computed() {
            computed.push(v.name.clone());
            proof {
                assert(computed@.map_values(|x: String| x@) =~= c0 + seq![v.name@]);
                assert(literal@.map_values(|x: String| x@) =~= l0 + Seq::<Seq<char>>::empty());
                assert(reference@.map_values(|p: (String, String)| (p.0@, p.1@)) =~= r0 + Seq::<(Seq<char>, Seq<char>)>::empty());
            }
        } else if v.has_literal_initial_value() {
            literal.push(v.name.clone());
            proof {
                assert(computed@.map_values(|x: String| x@) =~= c0 + Seq::<Seq<char>>::empty());
                assert(literal@.map_values(|x: String| x@) =~= l0 + seq![v.name@]);
                assert(reference@.map_values(|p: (String, String)| (p.0@, p.1@)) =~= r0 + Seq::<(Seq<char>, Seq<char>)>::empty());
            }
        } else {
            match v.get_initialization_dependency() {
                Some(target) => {
                    reference.push((v.name.clone(), crate::strings::to_owned_string(target)));
                    proof {
                        assert(reference@.map_values(|p: (String, String)| (p.0@, p.1@)) =~= r0 + seq![(v.name@, target@)]);
                    }
                },
                None => {
                    proof {
                        assert(reference@.map_values(|p: (String, String)| (p.0@, p.1@)) =~= r0 + Seq::<(Seq<char>, Seq<char>)>::empty());
                    }
                },
            }
            proof {
                assert(computed@.map_values(|x: String| x@) =~= c0 + Seq::<Seq<char>>::empty());
                assert(literal@.map_values(|x: String| x@) =~= l0 + Seq::<Seq<char>>::empty());
            }
        }
        i = i + 1;
    }
    proof {
        assert(variables@.subrange(0, variables@.len() as int) =~= variables@);
    }
    VariableDistribution { computed, literal, reference }
}

/// Whether a value is a variable reference.
pub fn has_variable_references(value: &Value) -> (res: bool)
    ensures
        res == value is Variable,
{
    match value {
        Value::Variable(_) => true,
        _ => false,
    }
}

/// The names of a list of variables, in order.
pub open spec fn variable_names(s: Seq<VariableDeclaration>) -> Seq<Seq<char>> {
    s.map_values(|v: VariableDeclaration| v.name@)
}

/// Checks that no two variables share a name; the error names the first
/// variable whose name was already taken.
pub fn validate_variable_name_uniqueness(variables: &Vec<VariableDeclaration>) -> (res: Result<(), ResolutionError>)
    ensures
        res is Ok <==> variable_names(variables@).no_duplicates(),
        res matches Err(e) ==> exists|i: int| #![trigger variables@[i]] 0 <= i < variables@.len()
            && variable_names(variables@.subrange(0, i)).no_duplicates()
            && variable_names(variables@.subrange(0, i)).contains(variables@[i].name@)
            && (e matches ResolutionError::InvalidInput { message }
                && message@ == "Duplicate variable name: '"@ + variables@[i].name@ + "'"@),
{
    let ghost names = variable_names(variables@);
    let mut i: usize = 0;
    while i < variables.len()
        invariant
            i <= variables@.len(),
            names == variable_names(variables@),
            variable_names(variables@.subrange(0, i as int)).no_duplicates(),
        decreases variables@.len() - i,
    {
        let ghost pre = variable_names(variables@.subrange(0, i as int));
        let mut j: usize = 0;
        while j < i
            invariant
                j <= i,
                i < variables@.len(),
                names == variable_names(variables@),
                pre == variable_names(variables@.subrange(0, i as int)),
                pre.no_duplicates(),
                forall|m: int| 0 <= m < j ==> variables@[m].name@ != variables@[i as int].name@,
            decreases i - j,
        {
            if crate::strings::str_eq(variables[j].name.as_str(), variables[i].name.as_str()) {
                proof {
                    assert(pre[j as int] == variables@[i as int].name@);
                    assert(pre.contains(variables@[i as int].name@));
                    assert(names[j as int] == names[i as int]);
                }
                return Err(ResolutionError::InvalidInput {
                    message: concat3("Duplicate variable name: '", variables[i].name.as_str(), "'"),
                });
            }
            j = j + 1;
        }
        proof {
            let post = variable_names(variables@.subrange(0, i + 1));
            assert(post =~= pre.push(variables@[i as int].name@));
            assert forall|a: int, b: int| 0 <= a < post.len() && 0 <= b < post.len() && a != b
                implies post[a] != post[b] by {
                if a == i as int { assert(post[b] == variables@[b].name@); }
                if b == i as int { assert(post[a] == variables@[a].name@); }
                if a < i && b < i { assert(post[a] == pre[a] && post[b] == pre[b]); }
            }
        }
        i = i + 1;
    }
    proof {
        assert(variables@.subrange(0, variables@.len() as int) =~= variables@);
    }
    Ok(())
}

impl VariableDistribution {
    /// The number of variables in all three lists.
    pub fn total_count(&self) -> (res: usize)
        requires
            self.computed@.len() + self.literal@.len() + self.reference@.len() <= usize::MAX,
        ensures
            res == self.computed@.len() + self.literal@.len() + self.reference@.len(),
    {
        self.computed.len() + self.literal.len() + self.reference.len()
    }

    /// Whether some variable is computed.
    pub fn has_computed_variables(&self) -> (res: bool)
        ensures
            res == (self.computed@.len() > 0),
    {
        self.computed.len() > 0
    }

    /// Whether some variable is initialised from another.
    pub fn has_reference_variables(&self) -> (res: bool)
        ensures
            res == (self.reference@.len() > 0),
    {
        self.reference.len() > 0
    }

    /// A one-line summary of the counts.
    pub fn summary(&self) -> (res: String)
        ensures
            res@ == "Variables: "@ + decimal(self.computed@.len()) + " computed, "@ + decimal(self.literal@.len())
                + " literal, "@ + decimal(self.reference@.len()) + " reference"@,
    {
        let mut s = String::from_str("Variables: ");
        s.append(usize_to_string(self.computed.len()).as_str());
        s.append(" computed, ");
        s.append(usize_to_string(self.literal.len()).as_str());
        s.append(" literal, ");
        s.append(usize_to_string(self.reference.len()).as_str());
        s.append(" reference");
        s
    }
}

/// The integer a JSON member holds, if it is one that fits in `i64`.
pub open spec fn json_int(o: Option<JsonValue>) -> Option<i64> {
    match o {
        Some(JsonValue::Number(n)) => n.int,
        _ => None,
    }
}

/// The float bits of a JSON member, if it is a number.
pub open spec fn json_float(o: Option<JsonValue>) -> Option<u64> {
    match o {
        Some(JsonValue::Number(n)) => Some(n.float_bits),
        _ => None,
    }
}

/// The boolean a JSON member holds, if any.
pub open spec fn json_bool(o: Option<JsonValue>) -> Option<bool> {
    match o {
        Some(JsonValue::Bool(b)) => Some(b),
        _ => None,
    }
}

/// A value written in the AST as `{"String": ..}`, `{"Integer": ..}`,
/// `{"Float": ..}`, `{"Boolean": ..}` or `{"Variable": ..}`, tried in that order.
pub open spec fn value_json_ok(v: JsonValue) -> bool {
    json_get_str(v, "String"@) is Some || json_int(json_get(v, "Integer"@)) is Some
        || json_float(json_get(v, "Float"@)) is Some || json_bool(json_get(v, "Boolean"@)) is Some
        || json_get_str(v, "Variable"@) is Some
}

/// `x` is the value that `v` describes.
pub open spec fn value_from_json(v: JsonValue, x: Value) -> bool {
    if json_get_str(v, "String"@) is Some {
        x matches Value::String(s) && s@ == json_get_str(v, "String"@)->Some_0
    } else if json_int(json_get(v, "Integer"@)) is Some {
        x == Value::Integer(json_int(json_get(v, "Integer"@))->Some_0)
    } else if json_float(json_get(v, "Float"@)) is Some {
        x == Value::Float(json_float(json_get(v, "Float"@))->Some_0)
    } else if json_bool(json_get(v, "Boolean"@)) is Some {
        x == Value::Boolean(json_bool(json_get(v, "Boolean"@))->Some_0)
    } else {
        x matches Value::Variable(n) && n@ == json_get_str(v, "Variable"@)->Some_0
    }
}

/// Parse a value written in the AST form.
pub fn parse_value_from_json(value_json: &JsonValue) -> (res: Result<Value, ResolutionError>)
    ensures
        match res {
            Ok(x) => value_json_ok(*value_json) && value_from_json(*value_json, x),
            Err(e) => e matches ResolutionError::InvalidInput { message } && message@ == "Unknown value type in JSON"@
                && !value_json_ok(*value_json),
        },
{
    if let Some(s) = value_json.get_str("String") {
        return Ok(Value::String(to_owned_string(s)));
    }
    if let Some(n) = value_json.get("Integer") {
        if let Some(i) = n.as_i64() {
            return Ok(Value::Integer(i));
        }
    }
    if let Some(n) = value_json.get("Float") {
        if let Some(f) = n.as_float_bits() {
            return Ok(Value::Float(f));
        }
    }
    if let Some(b) = value_json.get("Boolean") {
        if let Some(x) = b.as_bool() {
            return Ok(Value::Boolean(x));
        }
    }
    if let Some(name) = value_json.get_str("Variable") {
        return Ok(Value::Variable(to_owned_string(name)));
    }
    Err(ResolutionError::InvalidInput { message: to_owned_string("Unknown value type in JSON") })
}

/// An initial value that is neither null nor a value in the AST form.
pub open spec fn initial_value_bad(iv: JsonValue) -> bool {
    !(iv is Null) && !value_json_ok(iv)
}

/// `dt` spells a data type.
pub open spec fn is_data_type_name(dt: Seq<char>) -> bool {
    exists|t: DataType| data_type_name(t) == dt
}

/// The message of the error the data type and initial value of a variable
/// declaration give, if any.
pub open spec fn variable_typing_error(v: JsonValue) -> Option<Seq<char>> {
    match json_get_str(v, "data_type"@) {
        None => Some("Variable missing data_type"@),
        Some(dt) => if !is_data_type_name(dt) {
            Some("Invalid data type: "@ + dt)
        } else if json_get(v, "initial_value"@) matches Some(iv) && initial_value_bad(iv) {
            Some("Unknown value type in JSON"@)
        } else {
            None
        },
    }
}

/// The message of the error a variable declaration gives, if any.
pub open spec fn variable_json_error(v: JsonValue) -> Option<Seq<char>> {
    match json_get_str(v, "name"@) {
        None => Some("Variable missing name"@),
        Some(n) => if trimmed(n).len() == 0 {
            Some("Variable name cannot be empty"@)
        } else {
            variable_typing_error(v)
        },
    }
}

/// `d` is the variable that the well-formed declaration `v` describes; a
/// missing or null initial value makes a computed variable.
pub open spec fn variable_parsed(v: JsonValue, d: VariableDeclaration) -> bool {
    &&& d.name@ == json_get_str(v, "name"@)->Some_0
    &&& data_type_name(d.data_type) == json_get_str(v, "data_type"@)->Some_0
    &&& match json_get(v, "initial_value"@) {
        Some(iv) => if (iv is Null) {
            d.initial_value is None
        } else {
            d.initial_value matches Some(x) && value_from_json(iv, x)
        },
        None => d.initial_value is None,
    }
}

/// The position and message of the first variable declaration of a list
/// that gives an error.
pub open spec fn first_variable_error(items: Seq<JsonValue>) -> Option<(nat, Seq<char>)>
    decreases items.len(),
{
    if items.len() == 0 {
        None
    } else {
        match first_variable_error(items.drop_last()) {
            Some(e) => Some(e),
            None => match variable_json_error(items.last()) {
                Some(m) => Some(((items.len() - 1) as nat, m)),
                None => None,
            },
        }
    }
}

/// Once a prefix of the declarations holds an error, the first error of the
/// whole list is that of the prefix.
proof fn lemma_first_variable_error_extends(items: Seq<JsonValue>, k: int)
    requires
        0 <= k <= items.len(),
        first_variable_error(items.subrange(0, k)) is Some,
    ensures
        first_variable_error(items) == first_variable_error(items.subrange(0, k)),
    decreases items.len() - k,
{
    if k == items.len() {
        assert(items.subrange(0, k) =~= items);
    } else {
        assert(items.subrange(0, k + 1).drop_last() =~= items.subrange(0, k));
        lemma_first_variable_error_extends(items, k + 1);
    }
}

/// The variable declarations of the definition of an AST; none when it
/// lists none.
pub open spec fn ast_variables(ast: JsonValue) -> Seq<JsonValue> {
    match json_get(ast, "definition"@) {
        Some(d) => match json_get(d, "variables"@) {
            Some(JsonValue::Array(a)) => a@,
            _ => Seq::empty(),
        },
        None => Seq::empty(),
    }
}

/// Parse one variable declaration.
fn parse_variable_from_json(var_json: &JsonValue) -> (res: Result<VariableDeclaration, ResolutionError>)
    ensures
        match res {
            Ok(d) => variable_json_error(*var_json) is None && variable_parsed(*var_json, d),
            Err(e) => e matches ResolutionError::InvalidInput { message } && variable_json_error(*var_json) == Some(message@),
        },
{
    let name = match var_json.get_str("name") {
        Some(n) => n,
        None => {
            return Err(ResolutionError::InvalidInput { message: to_owned_string("Variable missing name") });
        },
    };
    if trim_str(name).unicode_len() == 0 {
        return Err(ResolutionError::InvalidInput { message: to_owned_string("Variable name cannot be empty") });
    }
    let data_type_str = match var_json.get_str("data_type") {
        Some(d) => d,
        None => {
            return Err(ResolutionError::InvalidInput { message: to_owned_string("Variable missing data_type") });
        },
    };
    let data_type = match DataType::from_str(data_type_str) {
        Some(t) => t,
        None => {
            return Err(ResolutionError::InvalidInput { message: concat2("Invalid data type: ", data_type_str) });
        },
    };
    let initial_value = match var_json.get("initial_value") {
        Some(iv) => if iv.is_null() {
            None
        } else {
            match parse_value_from_json(iv) {
                Ok(x) => Some(x),
                Err(e) => {
                    return Err(e);
                },
            }
        },
        None => None,
    };
    Ok(VariableDeclaration { name: to_owned_string(name), data_type, initial_value })
}

/// Parse the variable declarations of the definition of an AST; the first
/// declaration that gives an error stops the parse.
pub fn extract_variables_from_json(ast_json: &JsonValue) -> (res: Result<Vec<VariableDeclaration>, ResolutionError>)
    ensures
        match res {
            Ok(vars) => {
                &&& json_get(*ast_json, "definition"@) is Some
                &&& first_variable_error(ast_variables(*ast_json)) is None
                &&& vars@.len() == ast_variables(*ast_json).len()
                &&& forall|k: int| 0 <= k < vars@.len() ==> variable_parsed(ast_variables(*ast_json)[k], #[trigger] vars@[k])
            },
            Err(e) => e matches ResolutionError::InvalidInput { message } && match json_get(*ast_json, "definition"@) {
                None => message@ == "No definition found in AST"@,
                Some(_) => first_variable_error(ast_variables(*ast_json)) matches Some(fe) && message@ == fe.1,
            },
        },
{
    let definition = match ast_json.get("definition") {
        Some(d) => d,
        None => {
            return Err(ResolutionError::InvalidInput { message: to_owned_string("No definition found in AST") });
        },
    };
    let empty: Vec<JsonValue> = Vec::new();
    let items: &Vec<JsonValue> = match definition.get("variables") {
        Some(v) => match v.as_array() {
            Some(a) => a,
            None => &empty,
        },
        None => &empty,
    };
    let mut vars: Vec<VariableDeclaration> = Vec::new();
    let mut i: usize = 0;
    proof {
        assert(items@.subrange(0, 0) =~= Seq::<JsonValue>::empty());
    }
    while i < items.len()
        invariant
            i <= items@.len(),
            items@ == ast_variables(*ast_json),
            json_get(*ast_json, "definition"@) is Some,
            first_variable_error(items@.subrange(0, i as int)) is None,
            vars@.len() == i,
            forall|k: int| 0 <= k < i ==> variable_parsed(items@[k], #[trigger] vars@[k]),
        decreases items@.len() - i,
    {
        proof {
            let sub = items@.subrange(0, i + 1);
            assert(sub.drop_last() =~= items@.subrange(0, i as int));
            assert(sub.last() == items@[i as int]);
        }
        match parse_variable_from_json(&items[i]) {
            Ok(d) => {
                vars.push(d);
            },
            Err(e) => {
                proof {
                    lemma_first_variable_error_extends(items@, i + 1);
                }
                return Err(e);
            },
        }
        i = i + 1;
    }
    proof {
        assert(items@.subrange(0, items@.len() as int) =~= items@);
    }
    Ok(vars)
}

/// The references of a list of variables, as (variable, source), in order.
pub open spec fn reference_pairs(s: Seq<VariableDeclaration>) -> Seq<(Seq<char>, Seq<char>)>
    decreases s.len(),
{
    if s.len() == 0 {
        Seq::empty()
    } else {
        reference_pairs(s.drop_last()) + match init_dependency(s.last()) {
            Some(t) => seq![(s.last().name@, t)],
            None => Seq::empty(),
        }
    }
}

/// The validations deferred for the references of a list of variables.
pub open spec fn reference_deferrals(s: Seq<VariableDeclaration>) -> Seq<(ValidationType, Seq<char>, Seq<char>, Seq<char>)> {
    reference_pairs(s).map_values(|p: (Seq<char>, Seq<char>)| (ValidationType::VariableReference, p.0, p.1,
        "Variable initialization: "@ + p.0 + " = VAR "@ + p.1))
}

/// Parse the variables of an AST and record in the context which are
/// computed, literal or references; each reference is deferred for validation.
pub fn extract_and_categorize_variables_from_json(ast_json: &JsonValue, context: &mut ResolutionContext)
    -> (res: Result<Vec<VariableDeclaration>, ResolutionError>)
    requires
        context_wf(*old(context)),
    ensures
        context_wf(*final(context)),
        *final(context) == (ResolutionContext {
            computed_variables: final(context).computed_variables,
            literal_variables: final(context).literal_variables,
            reference_variables: final(context).reference_variables,
            deferred_validations: final(context).deferred_validations,
            ..*old(context)
        }),
        match res {
            Ok(vars) => {
                &&& json_get(*ast_json, "definition"@) is Some
                &&& first_variable_error(ast_variables(*ast_json)) is None
                &&& vars@.len() == ast_variables(*ast_json).len()
                &&& forall|k: int| 0 <= k < vars@.len() ==> variable_parsed(ast_variables(*ast_json)[k], #[trigger] vars@[k])
                &&& views(final(context).computed_variables@) == views(old(context).computed_variables@) + computed_names(vars@)
                &&& views(final(context).literal_variables@) == views(old(context).literal_variables@) + literal_names(vars@)
                &&& final(context).reference_variables@.map_values(|p: (String, String)| (p.0@, p.1@))
                    == old(context).reference_variables@.map_values(|p: (String, String)| (p.0@, p.1@)) + reference_pairs(vars@)
                &&& deferrals(final(context).deferred_validations@)
                    == deferrals(old(context).deferred_validations@) + reference_deferrals(vars@)
                &&& final(context).parsing_errors@ == old(context).parsing_errors@
            },
            Err(e) => e matches ResolutionError::InvalidInput { message } && *final(context) == *old(context)
                && match json_get(*ast_json, "definition"@) {
                    None => message@ == "No definition found in AST"@,
                    Some(_) => first_variable_error(ast_variables(*ast_json)) matches Some(fe) && message@ == fe.1,
                },
        },
{
    let variables = match extract_variables_from_json(ast_json) {
        Ok(v) => v,
        Err(e) => {
            return Err(e);
        },
    };
    let ghost c0 = views(context.computed_variables@);
    let ghost l0 = views(context.literal_variables@);
    let ghost r0 = context.reference_variables@.map_values(|p: (String, String)| (p.0@, p.1@));
    let ghost d0 = deferrals(context.deferred_validations@);
    let ghost p0 = context.parsing_errors@;
    let mut i: usize = 0;
    proof {
        assert(variables@.subrange(0, 0) =~= Seq::<VariableDeclaration>::empty());
        assert(views(context.computed_variables@) =~= c0 + Seq::<Seq<char>>::empty());
        assert(views(context.literal_variables@) =~= l0 + Seq::<Seq<char>>::empty());
        assert(context.reference_variables@.map_values(|p: (String, String)| (p.0@, p.1@))
            =~= r0 + Seq::<(Seq<char>, Seq<char>)>::empty());
        assert(deferrals(context.deferred_validations@) =~= d0 + reference_deferrals(Seq::<VariableDeclaration>::empty()));
    }
    while i < variables.len()
        invariant
            i <= variables@.len(),
            context_wf(*context),
            context.parsing_errors@ == p0,
            *context == (ResolutionContext {
                computed_variables: context.computed_variables,
                literal_variables: context.literal_variables,
                reference_variables: context.reference_variables,
                deferred_validations: context.deferred_validations,
                ..*old(context)
            }),
            views(context.computed_variables@) == c0 + computed_names(variables@.subrange(0, i as int)),
            views(context.literal_variables@) == l0 + literal_names(variables@.subrange(0, i as int)),
            context.reference_variables@.map_values(|p: (String, String)| (p.0@, p.1@))
                == r0 + reference_pairs(variables@.subrange(0, i as int)),
            deferrals(context.deferred_validations@) == d0 + reference_deferrals(variables@.subrange(0, i as int)),
        decreases variables@.len() - i,
    {
        let ghost sub = variables@.subrange(0, i + 1);
        proof {
            assert(sub.drop_last() =~= variables@.subrange(0, i as int));
            assert(sub.last() == variables@[i as int]);
        }
        let v = &variables[i];
        let ghost cb = views(context.computed_variables@);
        let ghost lb = views(context.literal_variables@);
        let ghost rb = context.reference_variables@.map_values(|p: (String, String)| (p.0@, p.1@));
        let ghost db = deferrals(context.deferred_validations@);
        if v.is_computed() {
            context.add_computed_variable(v.name.clone());
            proof {
                assert(views(context.computed_variables@) =~= cb.push(v.name@));
                assert(views(context.literal_variables@) =~= lb + Seq::<Seq<char>>::empty());
                assert(context.reference_variables@.map_values(|p: (String, String)| (p.0@, p.1@))
                    =~= rb + Seq::<(Seq<char>, Seq<char>)>::empty());
                assert(reference_pairs(sub) =~= reference_pairs(variables@.subrange(0, i as int)));
                assert(deferrals(context.deferred_validations@) =~= db);
            }
        } else if v.has_literal_initial_value() {
            context.add_literal_variable(v.name.clone());
            proof {
                assert(views(context.literal_variables@) =~= lb.push(v.name@));
                assert(views(context.computed_variables@) =~= cb + Seq::<Seq<char>>::empty());
                assert(context.reference_variables@.map_values(|p: (String, String)| (p.0@, p.1@))
                    =~= rb + Seq::<(Seq<char>, Seq<char>)>::empty());
                assert(reference_pairs(sub) =~= reference_pairs(variables@.subrange(0, i as int)));
                assert(deferrals(context.deferred_validations@) =~= db);
            }
        } else {
            match v.get_initialization_dependency() {
                Some(target) => {
                    context.add_reference_variable(v.name.clone(), to_owned_string(target));
                    let ghost dv0 = context.deferred_validations@;
                    let msg = concat2(concat3("Variable initialization: ", v.name.as_str(), " = VAR ").as_str(), target);
                    context.defer_variable_reference_validation(v.name.clone(), to_owned_string(target), msg);
                    proof {
                        assert(views(context.computed_variables@) =~= cb + Seq::<Seq<char>>::empty());
                        assert(views(context.literal_variables@) =~= lb + Seq::<Seq<char>>::empty());
                        assert(reference_pairs(sub) =~= reference_pairs(variables@.subrange(0, i as int)).push((v.name@, target@)));
                        assert(context.reference_variables@.map_values(|p: (String, String)| (p.0@, p.1@))
                            =~= rb.push((v.name@, target@)));
                        assert(reference_deferrals(sub) =~= reference_deferrals(variables@.subrange(0, i as int)).push(
                            (ValidationType::VariableReference, v.name@, target@,
                                "Variable initialization: "@ + v.name@ + " = VAR "@ + target@)));
                        assert(deferrals(context.deferred_validations@) =~= deferrals(dv0).push(
                            (ValidationType::VariableReference, v.name@, target@,
                                "Variable initialization: "@ + v.name@ + " = VAR "@ + target@)));
                    }
                },
                None => {},
            }
        }
        i = i + 1;
    }
    proof {
        assert(variables@.subrange(0, variables@.len() as int) =~= variables@);
    }
    Ok(variables)
}

} // verus!
