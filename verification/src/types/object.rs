//! Object declarations, object references and resolved objects.

use vstd::prelude::*;
use crate::strings::str_eq;
use crate::types::common::{DataType, Value, ResolvedValue, RecordData};
use crate::types::filter::{FilterSpec, ResolvedFilterSpec, clone_strings};

verus! {

/// Module metadata fields of an object.
#[derive(Debug, Clone, Copy, PartialEq, Eq, Structural)]
pub enum ModuleField {
    ModuleName,
    Verb,
    Noun,
    ModuleId,
    ModuleVersion,
}

/// The spelling of each module field in ESP definitions.
pub open spec fn module_field_name(f: ModuleField) -> Seq<char> {
    match f {
        ModuleField::ModuleName => "module_name"@,
        ModuleField::Verb => "verb"@,
        ModuleField::Noun => "noun"@,
        ModuleField::ModuleId => "module_id"@,
        ModuleField::ModuleVersion => "module_version"@,
    }
}

/// The module field spelled `s`, if any.
pub open spec fn module_field_of(s: Seq<char>) -> Option<ModuleField> {
    if s == "module_name"@ {
        Some(ModuleField::ModuleName)
    } else if s == "verb"@ {
        Some(ModuleField::Verb)
    } else if s == "noun"@ {
        Some(ModuleField::Noun)
    } else if s == "module_id"@ {
        Some(ModuleField::ModuleId)
    } else if s == "module_version"@ {
        Some(ModuleField::ModuleVersion)
    } else {
        None
    }
}

/// Parsing a module field name gives the field of that spelling, and only
/// those spellings parse.
pub proof fn lemma_module_field_round_trip(f: ModuleField)
    ensures
        module_field_of(module_field_name(f)) == Some(f),
        forall|s: Seq<char>| #[trigger] module_field_of(s) == Some(f) ==> s == module_field_name(f),
{
    reveal_strlit("module_name");
    reveal_strlit("verb");
    reveal_strlit("noun");
    reveal_strlit("module_id");
    reveal_strlit("module_version");
    assert("module_name"@.len() == 11 && "verb"@.len() == 4 && "noun"@.len() == 4 && "module_id"@.len() == 9
        && "module_version"@.len() == 14 && "verb"@[0] == 'v' && "noun"@[0] == 'n');
}

impl ModuleField {
    /// Parse a module field name.
    pub fn from_str(s: &str) -> (res: Option<ModuleField>)
        ensures
            res == module_field_of(s@),
            match res {
                Some(f) => module_field_name(f) == s@,
                None => forall|f: ModuleField| module_field_name(f) != s@,
            },
    {
        if str_eq(s, "module_name") {
            Some(ModuleField::ModuleName)
        } else if str_eq(s, "verb") {
            Some(ModuleField::Verb)
        } else if str_eq(s, "noun") {
            Some(ModuleField::Noun)
        } else if str_eq(s, "module_id") {
            Some(ModuleField::ModuleId)
        } else if str_eq(s, "module_version") {
            Some(ModuleField::ModuleVersion)
        } else {
            proof {
                assert forall|f: ModuleField| module_field_name(f) != s@ by {
                    match f {
                        ModuleField::ModuleName => {},
                        ModuleField::Verb => {},
                        ModuleField::Noun => {},
                        ModuleField::ModuleId => {},
                        ModuleField::ModuleVersion => {},
                    }
                }
            }
            None
        }
    }

    /// The spelling of the module field.
    pub fn as_str(&self) -> (res: &'static str)
        ensures
            res@ == module_field_name(*self),
    {
        match self {
            ModuleField::ModuleName => "module_name",
            ModuleField::Verb => "verb",
            ModuleField::Noun => "noun",
            ModuleField::ModuleId => "module_id",
            ModuleField::ModuleVersion => "module_version",
        }
    }
}

/// One element of an object declaration.
#[allow(inconsistent_fields)]
#[derive(Debug)]
pub enum ObjectElement {
    Field { name: String, value: Value },
    Module { field: ModuleField, value: String },
    Parameter { data_type: DataType, fields: Vec<(String, String)> },
    Select { data_type: DataType, fields: Vec<(String, String)> },
    Behavior { values: Vec<String> },
    Filter(FilterSpec),
    SetRef { set_id: String },
}

/// The variable named by an element: a field whose value is a variable reference.
pub open spec fn element_var_ref(e: ObjectElement) -> Seq<Seq<char>> {
    match e {
        ObjectElement::Field { value: Value::Variable(n), .. } => seq![n@],
        _ => Seq::empty(),
    }
}

/// The variables referenced by a list of elements, in order.
pub open spec fn elements_var_refs(s: Seq<ObjectElement>) -> Seq<Seq<char>>
    decreases s.len(),
{
    if s.len() == 0 {
        Seq::empty()
    } else {
        elements_var_refs(s.drop_last()) + element_var_ref(s.last())
    }
}

/// The state references of the filter elements of a list of elements, in order.
pub open spec fn elements_filter_refs(s: Seq<ObjectElement>) -> Seq<Seq<char>>
    decreases s.len(),
{
    if s.len() == 0 {
        Seq::empty()
    } else {
        elements_filter_refs(s.drop_last()) + match s.last() {
            ObjectElement::Filter(f) => f.state_refs@.map_values(|r: String| r@),
            _ => Seq::empty(),
        }
    }
}

impl ObjectElement {
    /// The name of the element kind.
    pub fn element_type_name(&self) -> (res: &'static str)
        ensures
            res@ == (match *self {
                ObjectElement::Field { .. } => "Field"@,
                ObjectElement::Module { .. } => "Module"@,
                ObjectElement::Parameter { .. } => "Parameter"@,
                ObjectElement::Select { .. } => "Select"@,
                ObjectElement::Behavior { .. } => "Behavior"@,
                ObjectElement::Filter(..) => "Filter"@,
                ObjectElement::SetRef { .. } => "SetRef"@,
            }),
    {
        match self {
            ObjectElement::Field { .. } => "Field",
            ObjectElement::Module { .. } => "Module",
            ObjectElement::Parameter { .. } => "Parameter",
            ObjectElement::Select { .. } => "Select",
            ObjectElement::Behavior { .. } => "Behavior",
            ObjectElement::Filter(..) => "Filter",
            ObjectElement::SetRef { .. } => "SetRef",
        }
    }
}

/// An object declaration: global, or local to one criterion.
#[derive(Debug)]
pub struct ObjectDeclaration {
    pub identifier: String,
    pub elements: Vec<ObjectElement>,
    pub is_global: bool,
}

/// Collect the variables referenced by fields of `elements`.
pub fn collect_element_var_refs(elements: &Vec<ObjectElement>) -> (res: Vec<String>)
    ensures
        res@.map_values(|r: String| r@) == elements_var_refs(elements@),
{
    let mut out: Vec<String> = Vec::new();
    let mut i: usize = 0;
    while i < elements.len()
        invariant
            i <= elements@.len(),
            out@.map_values(|r: String| r@) == elements_var_refs(elements@.subrange(0, i as int)),
        decreases elements@.len() - i,
    {
        proof {
            assert(elements@.subrange(0, i + 1).drop_last() =~= elements@.subrange(0, i as int));
        }
        let ghost before = out@;
        match &elements[i] {
            ObjectElement::Field { value: Value::Variable(n), .. } => {
                out.push(n.clone());
                proof {
                    assert(out@.map_values(|r: String| r@) =~= before.map_values(|r: String| r@) + seq![n@]);
                }
            },
            _ => {},
        }
        i = i + 1;
    }
    proof {
        assert(elements@.subrange(0, elements@.len() as int) =~= elements@);
    }
    out
}

/// Collect the state references of the filter elements of `elements`.
pub fn collect_element_filter_refs(elements: &Vec<ObjectElement>) -> (res: Vec<String>)
    ensures
        res@.map_values(|r: String| r@) == elements_filter_refs(elements@),
{
    let mut out: Vec<String> = Vec::new();
    let mut i: usize = 0;
    while i < elements.len()
        invariant
            i <= elements@.len(),
            out@.map_values(|r: String| r@) == elements_filter_refs(elements@.subrange(0, i as int)),
        decreases elements@.len() - i,
    {
        proof {
            assert(elements@.subrange(0, i + 1).drop_last() =~= elements@.subrange(0, i as int));
        }
        match &elements[i] {
            ObjectElement::Filter(f) => {
                let mut j: usize = 0;
                let ghost before = out@;
                while j < f.state_refs.len()
                    invariant
                        j <= f.state_refs@.len(),
                        out@.map_values(|r: String| r@) == before.map_values(|r: String| r@)
                            + f.state_refs@.subrange(0, j as int).map_values(|r: String| r@),
                    decreases f.state_refs@.len() - j,
                {
                    let ghost prev = out@;
                    out.push(f.state_refs[j].clone());
                    proof {
                        assert(out@.map_values(|r: String| r@) =~= prev.map_values(|r: String| r@).push(f.state_refs@[j as int]@));
                        assert(f.state_refs@.subrange(0, j + 1).map_values(|r: String| r@) =~=
                            f.state_refs@.subrange(0, j as int).map_values(|r: String| r@).push(f.state_refs@[j as int]@));
                    }
                    j = j + 1;
                }
                proof {
                    assert(f.state_refs@.subrange(0, j as int) =~= f.state_refs@);
                }
            },
            _ => {},
        }
        i = i + 1;
    }
    proof {
        assert(elements@.subrange(0, elements@.len() as int) =~= elements@);
    }
    out
}

impl ObjectDeclaration {
    /// The variables referenced by the fields of this object, in element order.
    pub fn get_variable_references(&self) -> (res: Vec<String>)
        ensures
            res@.map_values(|r: String| r@) == elements_var_refs(self.elements@),
    {
        collect_element_var_refs(&self.elements)
    }

    /// Whether some field of this object refers to a variable.
    pub fn has_variable_references(&self) -> (res: bool)
        ensures
            res == (elements_var_refs(self.elements@).len() > 0),
    {
        let refs = self.get_variable_references();
        refs.len() > 0
    }
}

/// A reference from a criterion to a global object.
#[derive(Debug)]
pub struct ObjectRef {
    pub object_id: String,
}

impl ObjectRef {
    /// A reference to the object `object_id`.
    pub fn new(object_id: String) -> (res: ObjectRef)
        ensures
            res.object_id == object_id,
    {
        ObjectRef { object_id }
    }
}

impl Clone for ObjectRef {
    fn clone(&self) -> (res: Self)
        ensures
            res == *self,
    {
        ObjectRef { object_id: self.object_id.clone() }
    }
}

/// An object element after resolution.
#[allow(inconsistent_fields)]
#[derive(Debug)]
pub enum ResolvedObjectElement {
    Field { name: String, value: ResolvedValue },
    Module { field: ModuleField, value: String },
    Parameter { data_type: DataType, data: RecordData },
    Select { data_type: DataType, data: RecordData },
    Behavior { values: Vec<String> },
    Filter(ResolvedFilterSpec),
    SetRef { set_id: String },
}

/// Two resolved elements carry the same data.
pub open spec fn same_element(a: ResolvedObjectElement, b: ResolvedObjectElement) -> bool {
    match (a, b) {
        (ResolvedObjectElement::Field { name: n1, value: v1 },
            ResolvedObjectElement::Field { name: n2, value: v2 }) => n1 == n2 && v1 == v2,
        (ResolvedObjectElement::Module { field: f1, value: v1 },
            ResolvedObjectElement::Module { field: f2, value: v2 }) => f1 == f2 && v1 == v2,
        (ResolvedObjectElement::Parameter { data_type: t1, data: d1 },
            ResolvedObjectElement::Parameter { data_type: t2, data: d2 }) =>
            t1 == t2 && d1.fields@ == d2.fields@,
        (ResolvedObjectElement::Select { data_type: t1, data: d1 },
            ResolvedObjectElement::Select { data_type: t2, data: d2 }) =>
            t1 == t2 && d1.fields@ == d2.fields@,
        (ResolvedObjectElement::Behavior { values: v1 },
            ResolvedObjectElement::Behavior { values: v2 }) => v1@ == v2@,
        (ResolvedObjectElement::Filter(f1), ResolvedObjectElement::Filter(f2)) =>
            f1.action == f2.action && f1.state_refs@ == f2.state_refs@,
        (ResolvedObjectElement::SetRef { set_id: s1 }, ResolvedObjectElement::SetRef { set_id: s2 }) =>
            s1 == s2,
        _ => false,
    }
}

impl Clone for ResolvedObjectElement {
    fn clone(&self) -> (res: Self)
        ensures
            same_element(res, *self),
    {
        match self {
            ResolvedObjectElement::Field { name, value } =>
                ResolvedObjectElement::Field { name: name.clone(), value: value.clone() },
            ResolvedObjectElement::Module { field, value } =>
                ResolvedObjectElement::Module { field: *field, value: value.clone() },
            ResolvedObjectElement::Parameter { data_type, data } =>
                ResolvedObjectElement::Parameter { data_type: *data_type, data: data.clone() },
            ResolvedObjectElement::Select { data_type, data } =>
                ResolvedObjectElement::Select { data_type: *data_type, data: data.clone() },
            ResolvedObjectElement::Behavior { values } =>
                ResolvedObjectElement::Behavior { values: clone_strings(values) },
            ResolvedObjectElement::Filter(f) => ResolvedObjectElement::Filter(f.clone()),
            ResolvedObjectElement::SetRef { set_id } =>
                ResolvedObjectElement::SetRef { set_id: set_id.clone() },
        }
    }
}

/// An object after resolution.
#[derive(Debug)]
pub struct ResolvedObject {
    pub identifier: String,
    pub resolved_elements: Vec<ResolvedObjectElement>,
    pub is_global: bool,
}

/// Two resolved objects carry the same data.
pub open spec fn same_object(a: ResolvedObject, b: ResolvedObject) -> bool {
    &&& a.identifier == b.identifier
    &&& a.is_global == b.is_global
    &&& a.resolved_elements@.len() == b.resolved_elements@.len()
    &&& forall|i: int| 0 <= i < a.resolved_elements@.len()
        ==> same_element(#[trigger] a.resolved_elements@[i], b.resolved_elements@[i])
}

impl Clone for ResolvedObject {
    fn clone(&self) -> (res: Self)
        ensures
            same_object(res, *self),
    {
        let mut elems: Vec<ResolvedObjectElement> = Vec::new();
        let mut i: usize = 0;
        while i < self.resolved_elements.len()
            invariant
                i <= self.resolved_elements@.len(),
                elems@.len() == i,
                forall|j: int| 0 <= j < i ==> same_element(#[trigger] elems@[j], self.resolved_elements@[j]),
            decreases self.resolved_elements@.len() - i,
        {
            elems.push(self.resolved_elements[i].clone());
            i = i + 1;
        }
        ResolvedObject {
            identifier: self.identifier.clone(),
            resolved_elements: elems,
            is_global: self.is_global,
        }
    }
}

} // verus!
