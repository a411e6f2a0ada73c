//! The symbol table that the compiler hands over: the relationships between
//! symbols, which become edges of the dependency graph, and the metadata of
//! the global and local symbols.

use vstd::prelude::*;
use crate::strings::{concat2, concat3, concat4, concat5, to_owned_string, usize_to_string, decimal, join_strings,
    join_sep};
use crate::string_map::{StringMap, CtnMap};
use crate::json::{JsonValue, json_get, json_get_str, json_same, clone_json};
use crate::resolution::dag::views;
use crate::resolution::error::ResolutionError;
use crate::types::criterion::CtnNodeId;
use crate::types::resolution_context::{RelationshipType, SymbolRelationship, relationship_name};

verus! {

/// The CTN node a relationship belongs to, when the member holds an
/// unsigned integer.
pub open spec fn json_ctn(o: Option<JsonValue>) -> Option<usize> {
    match o {
        Some(JsonValue::Number(n)) => match n.uint {
            Some(u) => Some(u as usize),
            None => None,
        },
        _ => None,
    }
}

/// The relationship type spelled `s`, if any.
pub open spec fn relationship_of(s: Seq<char>) -> Option<RelationshipType> {
    if exists|t: RelationshipType| relationship_name(t) == s {
        Some(choose|t: RelationshipType| relationship_name(t) == s)
    } else {
        None
    }
}

/// The message of the error the relationship at position `i` gives, if any.
pub open spec fn relationship_error(j: JsonValue, i: nat) -> Option<Seq<char>> {
    if !(j is Object) {
        Some("Relationship at index "@ + decimal(i) + " is not a JSON object"@)
    } else if json_get_str(j, "source"@) is None {
        Some("Missing or invalid 'source' field at index "@ + decimal(i))
    } else if json_get_str(j, "target"@) is None {
        Some("Missing or invalid 'target' field at index "@ + decimal(i))
    } else if json_get_str(j, "relationship_type"@) is None {
        Some("Missing or invalid 'relationship_type' field at index "@ + decimal(i))
    } else if relationship_of(json_get_str(j, "relationship_type"@)->Some_0) is None {
        Some("Unknown relationship type '"@ + json_get_str(j, "relationship_type"@)->Some_0 + "' at index "@ + decimal(i))
    } else {
        None
    }
}

/// `r` is the relationship that the well-formed `j` describes.
pub open spec fn relationship_parsed(j: JsonValue, r: SymbolRelationship) -> bool {
    &&& r.source@ == json_get_str(j, "source"@)->Some_0
    &&& r.target@ == json_get_str(j, "target"@)->Some_0
    &&& relationship_name(r.relationship_type) == json_get_str(j, "relationship_type"@)->Some_0
    &&& r.ctn_context == json_ctn(json_get(j, "ctn_context"@))
}

/// Parse the relationship at position `index`.
pub fn parse_single_relationship(relationship_json: &JsonValue, index: usize)
    -> (res: Result<SymbolRelationship, ResolutionError>)
    ensures
        match res {
            Ok(r) => relationship_error(*relationship_json, index as nat) is None
                && relationship_parsed(*relationship_json, r),
            Err(e) => e matches ResolutionError::InvalidInput { message }
                && relationship_error(*relationship_json, index as nat) == Some(message@),
        },
{
    let n = usize_to_string(index);
    if !relationship_json.is_object() {
        return Err(ResolutionError::InvalidInput {
            message: concat3("Relationship at index ", n.as_str(), " is not a JSON object"),
        });
    }
    let source = match relationship_json.get_str("source") {
        Some(s) => s,
        None => {
            return Err(ResolutionError::InvalidInput {
                message: concat2("Missing or invalid 'source' field at index ", n.as_str()),
            });
        },
    };
    let target = match relationship_json.get_str("target") {
        Some(s) => s,
        None => {
            return Err(ResolutionError::InvalidInput {
                message: concat2("Missing or invalid 'target' field at index ", n.as_str()),
            });
        },
    };
    let type_str = match relationship_json.get_str("relationship_type") {
        Some(s) => s,
        None => {
            return Err(ResolutionError::InvalidInput {
                message: concat2("Missing or invalid 'relationship_type' field at index ", n.as_str()),
            });
        },
    };
    let relationship_type = match RelationshipType::from_str(type_str) {
        Some(t) => t,
        None => {
            return Err(ResolutionError::InvalidInput {
                message: concat4("Unknown relationship type '", type_str, "' at index ", n.as_str()),
            });
        },
    };
    let ctn_context = match relationship_json.get("ctn_context") {
        Some(c) => match c.as_u64() {
            Some(u) => Some(u as CtnNodeId),
            None => None,
        },
        None => None,
    };
    Ok(SymbolRelationship {
        source: to_owned_string(source),
        target: to_owned_string(target),
        relationship_type,
        ctn_context,
    })
}

/// The positions of the relationships of a list that parse, in order.
pub open spec fn parsed_positions(items: Seq<JsonValue>) -> Seq<int>
    decreases items.len(),
{
    if items.len() == 0 {
        Seq::empty()
    } else {
        parsed_positions(items.drop_last()) + if relationship_error(items.last(), (items.len() - 1) as nat) is None {
            seq![items.len() - 1]
        } else {
            Seq::empty()
        }
    }
}

/// The positions kept from a prefix lie in that prefix.
proof fn lemma_parsed_positions_bounded(items: Seq<JsonValue>)
    ensures
        forall|k: int| 0 <= k < parsed_positions(items).len() ==> 0 <= #[trigger] parsed_positions(items)[k] < items.len(),
    decreases items.len(),
{
    if items.len() > 0 {
        let pre = items.drop_last();
        lemma_parsed_positions_bounded(pre);
        let all = parsed_positions(items);
        assert forall|k: int| 0 <= k < all.len() implies 0 <= #[trigger] all[k] < items.len() by {
            if k < parsed_positions(pre).len() {
                assert(all[k] == parsed_positions(pre)[k]);
            }
        }
    }
}

/// Parse the relationships of a symbol table. A relationship that does not
/// parse is skipped; the others are returned in order.
pub fn parse_relationships_from_json(symbols_json: &JsonValue) -> (res: Result<Vec<SymbolRelationship>, ResolutionError>)
    ensures
        match res {
            Ok(rels) => json_get(*symbols_json, "relationships"@) matches Some(JsonValue::Array(a)) && {
                let pos = parsed_positions(a@);
                &&& rels@.len() == pos.len()
                &&& forall|k: int| 0 <= k < rels@.len() ==> relationship_parsed(a@[pos[k]], #[trigger] rels@[k])
            },
            Err(e) => e matches ResolutionError::InvalidInput { message } && match json_get(*symbols_json, "relationships"@) {
                None => message@ == "Symbol table missing relationships array"@,
                Some(v) => !(v is Array) && message@ == "Relationships must be an array"@,
            },
        },
{
    let items = match symbols_json.get("relationships") {
        Some(v) => match v.as_array() {
            Some(a) => a,
            None => {
                return Err(ResolutionError::InvalidInput { message: to_owned_string("Relationships must be an array") });
            },
        },
        None => {
            return Err(ResolutionError::InvalidInput {
                message: to_owned_string("Symbol table missing relationships array"),
            });
        },
    };
    let mut rels: Vec<SymbolRelationship> = Vec::new();
    let mut i: usize = 0;
    proof {
        assert(items@.subrange(0, 0) =~= Seq::<JsonValue>::empty());
    }
    while i < items.len()
        invariant
            i <= items@.len(),
            rels@.len() == parsed_positions(items@.subrange(0, i as int)).len(),
            forall|k: int| 0 <= k < rels@.len() ==> relationship_parsed(
                items@[parsed_positions(items@.subrange(0, i as int))[k]], #[trigger] rels@[k]),
        decreases items@.len() - i,
    {
        let ghost sub = items@.subrange(0, i + 1);
        let ghost pre = parsed_positions(items@.subrange(0, i as int));
        proof {
            assert(sub.drop_last() =~= items@.subrange(0, i as int));
            assert(sub.last() == items@[i as int]);
            lemma_parsed_positions_bounded(items@.subrange(0, i as int));
        }
        match parse_single_relationship(&items[i], i) {
            Ok(r) => {
                rels.push(r);
                proof {
                    assert(parsed_positions(sub) == pre.push(i as int));
                    assert forall|k: int| 0 <= k < rels@.len() implies relationship_parsed(
                        items@[parsed_positions(sub)[k]], #[trigger] rels@[k]) by {
                        if k < pre.len() {
                            assert(parsed_positions(sub)[k] == pre[k]);
                        }
                    }
                }
            },
            Err(_) => {
                proof {
                    assert(parsed_positions(sub) =~= pre);
                }
            },
        }
        i = i + 1;
    }
    proof {
        assert(items@.subrange(0, items@.len() as int) =~= items@);
    }
    Ok(rels)
}

/// Information about one global symbol.
#[derive(Debug)]
pub struct SymbolInfo {
    pub identifier: String,
    pub element_count: usize,
    pub data_type: Option<String>,
    pub initial_value: Option<JsonValue>,
}

/// Information about the local symbols of one criterion.
#[derive(Debug)]
pub struct LocalSymbolInfo {
    pub ctn_type: String,
    pub local_states_count: usize,
    pub has_local_object: bool,
}

/// The metadata of the symbols of a definition.
#[derive(Debug)]
pub struct SymbolMetadata {
    pub variables: StringMap<SymbolInfo>,
    pub global_states: StringMap<SymbolInfo>,
    pub global_objects: StringMap<SymbolInfo>,
    pub sets: StringMap<SymbolInfo>,
    pub local_symbols: CtnMap<LocalSymbolInfo>,
}

/// The maps of the metadata have distinct keys.
pub open spec fn metadata_wf(m: SymbolMetadata) -> bool {
    &&& m.variables.wf()
    &&& m.global_states.wf()
    &&& m.global_objects.wf()
    &&& m.sets.wf()
    &&& m.local_symbols.wf()
}

/// The local symbols a criterion contributes: its states, and its object if any.
pub open spec fn local_symbol_count(l: LocalSymbolInfo) -> int {
    l.local_states_count + if l.has_local_object { 1int } else { 0int }
}

/// The local symbols of a list of criteria.
pub open spec fn local_symbols_total(s: Seq<(usize, LocalSymbolInfo)>) -> int
    decreases s.len(),
{
    if s.len() == 0 {
        0
    } else {
        local_symbols_total(s.drop_last()) + local_symbol_count(s.last().1)
    }
}

/// All symbols of the metadata, global and local.
pub open spec fn symbol_total(m: SymbolMetadata) -> int {
    m.variables.entries@.len() + m.global_states.entries@.len() + m.global_objects.entries@.len()
        + m.sets.entries@.len() + local_symbols_total(m.local_symbols.entries@)
}

/// The kind of global symbol `id` names, looked up in order: variable,
/// global state, global object, SET.
pub open spec fn symbol_kind(m: SymbolMetadata, id: Seq<char>) -> Option<Seq<char>> {
    if m.variables.has(id) {
        Some("Variable"@)
    } else if m.global_states.has(id) {
        Some("GlobalState"@)
    } else if m.global_objects.has(id) {
        Some("GlobalObject"@)
    } else if m.sets.has(id) {
        Some("SetOperation"@)
    } else {
        None
    }
}

impl SymbolMetadata {
    /// The number of symbols, global and local.
    pub fn total_symbol_count(&self) -> (res: usize)
        requires
            symbol_total(*self) <= usize::MAX,
        ensures
            res == symbol_total(*self),
    {
        proof {
            lemma_local_total_monotone(self.local_symbols.entries@, 0);
            assert(self.local_symbols.entries@.subrange(0, 0) =~= Seq::<(usize, LocalSymbolInfo)>::empty());
        }
        let mut total: usize = self.variables.entries.len() + self.global_states.entries.len()
            + self.global_objects.entries.len() + self.sets.entries.len();
        let ghost base = total as int;
        let mut i: usize = 0;
        while i < self.local_symbols.entries.len()
            invariant
                i <= self.local_symbols.entries@.len(),
                symbol_total(*self) <= usize::MAX,
                base == self.variables.entries@.len() + self.global_states.entries@.len()
                    + self.global_objects.entries@.len() + self.sets.entries@.len(),
                total == base + local_symbols_total(self.local_symbols.entries@.subrange(0, i as int)),
            decreases self.local_symbols.entries@.len() - i,
        {
            proof {
                let sub = self.local_symbols.entries@.subrange(0, i + 1);
                assert(sub.drop_last() =~= self.local_symbols.entries@.subrange(0, i as int));
                assert(sub.last() == self.local_symbols.entries@[i as int]);
                lemma_local_total_monotone(self.local_symbols.entries@, i + 1);
            }
            let info = &self.local_symbols.entries[i].1;
            total = total + info.local_states_count;
            if info.has_local_object {
                total = total + 1;
            }
            i = i + 1;
        }
        proof {
            assert(self.local_symbols.entries@.subrange(0, self.local_symbols.entries@.len() as int)
                =~= self.local_symbols.entries@);
        }
        total
    }

    /// Whether `symbol_id` is a global symbol.
    pub fn has_global_symbol(&self, symbol_id: &str) -> (res: bool)
        requires
            metadata_wf(*self),
        ensures
            res == symbol_kind(*self, symbol_id@) is Some,
    {
        self.variables.contains_key(symbol_id) || self.global_states.contains_key(symbol_id)
            || self.global_objects.contains_key(symbol_id) || self.sets.contains_key(symbol_id)
    }

    /// The kind of the global symbol `symbol_id`, if it is one.
    pub fn get_symbol_type(&self, symbol_id: &str) -> (res: Option<&'static str>)
        requires
            metadata_wf(*self),
        ensures
            match res {
                Some(k) => symbol_kind(*self, symbol_id@) == Some(k@),
                None => symbol_kind(*self, symbol_id@) is None,
            },
    {
        if self.variables.contains_key(symbol_id) {
            Some("Variable")
        } else if self.global_states.contains_key(symbol_id) {
            Some("GlobalState")
        } else if self.global_objects.contains_key(symbol_id) {
            Some("GlobalObject")
        } else if self.sets.contains_key(symbol_id) {
            Some("SetOperation")
        } else {
            None
        }
    }
}

/// The local totals of a prefix never exceed that of the whole list.
proof fn lemma_local_total_monotone(s: Seq<(usize, LocalSymbolInfo)>, k: int)
    requires
        0 <= k <= s.len(),
    ensures
        local_symbols_total(s.subrange(0, k)) <= local_symbols_total(s),
    decreases s.len() - k,
{
    if k < s.len() {
        assert(s.subrange(0, k + 1).drop_last() =~= s.subrange(0, k));
        lemma_local_total_monotone(s, k + 1);
    } else {
        assert(s.subrange(0, k) =~= s);
    }
}

/// `info` is what the symbol data `d` of the symbol `id` describes: its
/// identifier (or `id`), element count (or 0), data type and initial value.
pub open spec fn symbol_info_parsed(d: JsonValue, id: Seq<char>, info: SymbolInfo) -> bool {
    &&& info.identifier@ == match json_get_str(d, "identifier"@) {
        Some(x) => x,
        None => id,
    }
    &&& info.element_count == match json_get(d, "element_count"@) {
        Some(JsonValue::Number(n)) => match n.uint {
            Some(u) => u as usize,
            None => 0usize,
        },
        _ => 0usize,
    }
    &&& match json_get_str(d, "data_type"@) {
        Some(t) => info.data_type matches Some(x) && x@ == t,
        None => info.data_type is None,
    }
    &&& match json_get(d, "initial_value"@) {
        Some(v) => info.initial_value matches Some(x) && json_same(v, x),
        None => info.initial_value is None,
    }
}

/// Parse the data of the symbol `symbol_id`.
pub fn parse_symbol_info(symbol_data: &JsonValue, symbol_id: &str) -> (res: Result<SymbolInfo, ResolutionError>)
    ensures
        match res {
            Ok(info) => symbol_data is Object && symbol_info_parsed(*symbol_data, symbol_id@, info),
            Err(e) => e matches ResolutionError::InvalidInput { message } && !(symbol_data is Object)
                && message@ == "Symbol '"@ + symbol_id@ + "' data is not a JSON object"@,
        },
{
    if !symbol_data.is_object() {
        return Err(ResolutionError::InvalidInput { message: concat3("Symbol '", symbol_id, "' data is not a JSON object") });
    }
    let identifier = match symbol_data.get_str("identifier") {
        Some(x) => to_owned_string(x),
        None => to_owned_string(symbol_id),
    };
    let element_count: usize = match symbol_data.get("element_count") {
        Some(c) => match c.as_u64() {
            Some(u) => u as usize,
            None => 0,
        },
        None => 0,
    };
    let data_type = match symbol_data.get_str("data_type") {
        Some(x) => Some(to_owned_string(x)),
        None => None,
    };
    let initial_value = match symbol_data.get("initial_value") {
        Some(v) => Some(clone_json(v)),
        None => None,
    };
    Ok(SymbolInfo { identifier, element_count, data_type, initial_value })
}

/// The position of the first member of a collection whose data is not an object.
pub open spec fn first_bad_symbol(members: Seq<(String, JsonValue)>) -> Option<int>
    decreases members.len(),
{
    if members.len() == 0 {
        None
    } else {
        match first_bad_symbol(members.drop_last()) {
            Some(i) => Some(i),
            None => if members.last().1 is Object { None } else { Some(members.len() - 1) },
        }
    }
}

/// Once a prefix holds a bad member, the first bad member of the whole list is that of the prefix.
proof fn lemma_first_bad_symbol_extends(members: Seq<(String, JsonValue)>, k: int)
    requires
        0 <= k <= members.len(),
        first_bad_symbol(members.subrange(0, k)) is Some,
    ensures
        first_bad_symbol(members) == first_bad_symbol(members.subrange(0, k)),
    decreases members.len() - k,
{
    if k == members.len() {
        assert(members.subrange(0, k) =~= members);
    } else {
        assert(members.subrange(0, k + 1).drop_last() =~= members.subrange(0, k));
        lemma_first_bad_symbol_extends(members, k + 1);
    }
}

/// `m` holds one entry per symbol of the collection `members`, each parsed
/// from a member with its key.
pub open spec fn collection_parsed(members: Seq<(String, JsonValue)>, m: StringMap<SymbolInfo>) -> bool {
    &&& m.wf()
    &&& forall|i: int| 0 <= i < members.len() ==> m.has(#[trigger] members[i].0@)
    &&& forall|k: Seq<char>| m.has(k) ==> exists|i: int| 0 <= i < members.len() && #[trigger] members[i].0@ == k
        && symbol_info_parsed(members[i].1, k, m.at(k))
}

/// Parse the collection `collection_name` of the global symbols.
fn extract_symbol_collection(global_symbols: &JsonValue, collection_name: &str)
    -> (res: Result<StringMap<SymbolInfo>, ResolutionError>)
    ensures
        match res {
            Ok(m) => json_get(*global_symbols, collection_name@) matches Some(JsonValue::Object(members))
                && first_bad_symbol(members@) is None && collection_parsed(members@, m),
            Err(e) => e matches ResolutionError::InvalidInput { message } && match json_get(*global_symbols, collection_name@) {
                Some(JsonValue::Object(members)) => first_bad_symbol(members@) matches Some(i)
                    && message@ == "Symbol '"@ + members@[i].0@ + "' data is not a JSON object"@,
                _ => message@ == "Missing or invalid "@ + collection_name@ + " collection in global_symbols"@,
            },
        },
{
    let members = match global_symbols.get(collection_name) {
        Some(v) => match v.as_object() {
            Some(m) => m,
            None => {
                return Err(ResolutionError::InvalidInput {
                    message: concat3("Missing or invalid ", collection_name, " collection in global_symbols"),
                });
            },
        },
        None => {
            return Err(ResolutionError::InvalidInput {
                message: concat3("Missing or invalid ", collection_name, " collection in global_symbols"),
            });
        },
    };
    let mut symbols: StringMap<SymbolInfo> = StringMap::new();
    let mut i: usize = 0;
    proof {
        assert(members@.subrange(0, 0) =~= Seq::<(String, JsonValue)>::empty());
    }
    while i < members.len()
        invariant
            i <= members@.len(),
            json_get(*global_symbols, collection_name@) == Some(JsonValue::Object(*members)),
            first_bad_symbol(members@.subrange(0, i as int)) is None,
            symbols.wf(),
            forall|j: int| 0 <= j < i ==> symbols.has(#[trigger] members@[j].0@),
            forall|k: Seq<char>| symbols.has(k) ==> exists|j: int| 0 <= j < i && #[trigger] members@[j].0@ == k
                && symbol_info_parsed(members@[j].1, k, symbols.at(k)),
        decreases members@.len() - i,
    {
        proof {
            let sub = members@.subrange(0, i + 1);
            assert(sub.drop_last() =~= members@.subrange(0, i as int));
            assert(sub.last() == members@[i as int]);
        }
        let id = &members[i].0;
        match parse_symbol_info(&members[i].1, id.as_str()) {
            Ok(info) => {
                let ghost before = symbols;
                symbols.insert(id.clone(), info);
                proof {
                    assert forall|k: Seq<char>| symbols.has(k) implies exists|j: int| 0 <= j < i + 1
                        && #[trigger] members@[j].0@ == k && symbol_info_parsed(members@[j].1, k, symbols.at(k)) by {
                        if k == id@ {
                            assert(members@[i as int].0@ == k);
                        } else {
                            let j = choose|j: int| 0 <= j < i && #[trigger] members@[j].0@ == k
                                && symbol_info_parsed(members@[j].1, k, before.at(k));
                            assert(members@[j].0@ == k);
                        }
                    }
                }
            },
            Err(e) => {
                proof {
                    assert(first_bad_symbol(members@.subrange(0, i + 1)) == Some(i as int));
                    lemma_first_bad_symbol_extends(members@, i + 1);
                }
                return Err(e);
            },
        }
        i = i + 1;
    }
    proof {
        assert(members@.subrange(0, members@.len() as int) =~= members@);
    }
    Ok(symbols)
}

/// The CTN id and information of a local symbol table, when it parses.
pub open spec fn local_table_outcome(t: JsonValue) -> Option<(usize, Seq<char>, usize, bool)> {
    if !(t is Object) {
        None
    } else {
        match json_ctn(json_get(t, "ctn_node_id"@)) {
            None => None,
            Some(ctn) => match json_get_str(t, "ctn_type"@) {
                None => None,
                Some(ty) => Some((ctn, ty,
                    match json_get(t, "states"@) {
                        Some(JsonValue::Object(m)) => m@.len() as usize,
                        _ => 0usize,
                    },
                    match json_get(t, "object"@) {
                        Some(o) => !(o is Null),
                        None => false,
                    })),
            },
        }
    }
}

/// The information of a local symbol table as plain values.
pub open spec fn local_info_view(ctn: usize, l: LocalSymbolInfo) -> (usize, Seq<char>, usize, bool) {
    (ctn, l.ctn_type@, l.local_states_count, l.has_local_object)
}

/// Parse one local symbol table; `None` when it does not parse.
fn parse_local_symbol_table(table_json: &JsonValue) -> (res: Option<(CtnNodeId, LocalSymbolInfo)>)
    ensures
        match res {
            Some(p) => local_table_outcome(*table_json) == Some(local_info_view(p.0, p.1)),
            None => local_table_outcome(*table_json) is None,
        },
{
    if !table_json.is_object() {
        return None;
    }
    let ctn: CtnNodeId = match table_json.get("ctn_node_id") {
        Some(c) => match c.as_u64() {
            Some(u) => u as CtnNodeId,
            None => {
                return None;
            },
        },
        None => {
            return None;
        },
    };
    let ctn_type = match table_json.get_str("ctn_type") {
        Some(x) => to_owned_string(x),
        None => {
            return None;
        },
    };
    let states_count: usize = match table_json.get("states") {
        Some(v) => match v.as_object() {
            Some(m) => m.len(),
            None => 0,
        },
        None => 0,
    };
    let has_object = match table_json.get("object") {
        Some(o) => !o.is_null(),
        None => false,
    };
    Some((ctn, LocalSymbolInfo { ctn_type, local_states_count: states_count, has_local_object: has_object }))
}

/// `m` holds an entry for each local symbol table of `tables` that parses,
/// each taken from such a table.
pub open spec fn local_tables_parsed(tables: Seq<JsonValue>, m: CtnMap<LocalSymbolInfo>) -> bool {
    &&& m.wf()
    &&& forall|i: int| 0 <= i < tables.len() && (#[trigger] local_table_outcome(tables[i])) is Some
        ==> m.has(local_table_outcome(tables[i])->Some_0.0)
    &&& forall|c: usize| m.has(c) ==> exists|i: int| 0 <= i < tables.len()
        && #[trigger] local_table_outcome(tables[i]) == Some(local_info_view(c, m.at(c)))
}

/// Parse the local symbol tables; a table that does not parse is skipped.
fn extract_local_symbol_metadata(symbols_json: &JsonValue) -> (res: Result<CtnMap<LocalSymbolInfo>, ResolutionError>)
    ensures
        match res {
            Ok(m) => json_get(*symbols_json, "local_symbol_tables"@) matches Some(JsonValue::Array(a))
                && local_tables_parsed(a@, m),
            Err(e) => e matches ResolutionError::InvalidInput { message }
                && !(json_get(*symbols_json, "local_symbol_tables"@) matches Some(JsonValue::Array(_)))
                && message@ == "Missing or invalid local_symbol_tables in symbol table"@,
        },
{
    let tables = match symbols_json.get("local_symbol_tables") {
        Some(v) => match v.as_array() {
            Some(a) => a,
            None => {
                return Err(ResolutionError::InvalidInput {
                    message: to_owned_string("Missing or invalid local_symbol_tables in symbol table"),
                });
            },
        },
        None => {
            return Err(ResolutionError::InvalidInput {
                message: to_owned_string("Missing or invalid local_symbol_tables in symbol table"),
            });
        },
    };
    let mut locals: CtnMap<LocalSymbolInfo> = CtnMap::new();
    let mut i: usize = 0;
    while i < tables.len()
        invariant
            i <= tables@.len(),
            locals.wf(),
            forall|j: int| 0 <= j < i && (#[trigger] local_table_outcome(tables@[j])) is Some
                ==> locals.has(local_table_outcome(tables@[j])->Some_0.0),
            forall|c: usize| locals.has(c) ==> exists|j: int| 0 <= j < i
                && #[trigger] local_table_outcome(tables@[j]) == Some(local_info_view(c, locals.at(c))),
        decreases tables@.len() - i,
    {
        match parse_local_symbol_table(&tables[i]) {
            Some((ctn, info)) => {
                let ghost before = locals;
                let ghost v = local_info_view(ctn, info);
                locals.insert(ctn, info);
                proof {
                    assert(local_table_outcome(tables@[i as int]) == Some(v));
                    assert forall|c: usize| locals.has(c) implies exists|j: int| 0 <= j < i + 1
                        && #[trigger] local_table_outcome(tables@[j]) == Some(local_info_view(c, locals.at(c))) by {
                        if c == ctn {
                            assert(local_table_outcome(tables@[i as int]) == Some(local_info_view(c, locals.at(c))));
                        } else {
                            let j = choose|j: int| 0 <= j < i
                                && #[trigger] local_table_outcome(tables@[j]) == Some(local_info_view(c, before.at(c)));
                            assert(local_table_outcome(tables@[j]) == Some(local_info_view(c, locals.at(c))));
                        }
                    }
                }
            },
            None => {},
        }
        i = i + 1;
    }
    Ok(locals)
}

/// Parse the metadata of the symbol table: the variables, states, objects
/// and SETs of `global_symbols`, and the local symbol tables.
pub fn extract_symbol_metadata(symbols_json: &JsonValue) -> (res: Result<SymbolMetadata, ResolutionError>)
    ensures
        match res {
            Ok(m) => json_get(*symbols_json, "global_symbols"@) matches Some(g) && {
                &&& metadata_wf(m)
                &&& json_get(g, "variables"@) matches Some(JsonValue::Object(v)) && collection_parsed(v@, m.variables)
                &&& json_get(g, "states"@) matches Some(JsonValue::Object(v)) && collection_parsed(v@, m.global_states)
                &&& json_get(g, "objects"@) matches Some(JsonValue::Object(v)) && collection_parsed(v@, m.global_objects)
                &&& json_get(g, "sets"@) matches Some(JsonValue::Object(v)) && collection_parsed(v@, m.sets)
                &&& json_get(*symbols_json, "local_symbol_tables"@) matches Some(JsonValue::Array(a))
                    && local_tables_parsed(a@, m.local_symbols)
            },
            Err(e) => e is InvalidInput,
        },
        (json_get(*symbols_json, "global_symbols"@) matches Some(g) && g is Object) || res is Err,
{
    let globals = match symbols_json.get("global_symbols") {
        Some(g) => if g.is_object() {
            g
        } else {
            return Err(ResolutionError::InvalidInput {
                message: to_owned_string("Missing or invalid global_symbols in symbol table"),
            });
        },
        None => {
            return Err(ResolutionError::InvalidInput {
                message: to_owned_string("Missing or invalid global_symbols in symbol table"),
            });
        },
    };
    let variables = match extract_symbol_collection(globals, "variables") {
        Ok(m) => m,
        Err(e) => {
            return Err(e);
        },
    };
    let states = match extract_symbol_collection(globals, "states") {
        Ok(m) => m,
        Err(e) => {
            return Err(e);
        },
    };
    let objects = match extract_symbol_collection(globals, "objects") {
        Ok(m) => m,
        Err(e) => {
            return Err(e);
        },
    };
    let sets = match extract_symbol_collection(globals, "sets") {
        Ok(m) => m,
        Err(e) => {
            return Err(e);
        },
    };
    let local_symbols = match extract_local_symbol_metadata(symbols_json) {
        Ok(m) => m,
        Err(e) => {
            return Err(e);
        },
    };
    Ok(SymbolMetadata { variables, global_states: states, global_objects: objects, sets, local_symbols })
}

/// The `Debug` text of an optional symbol kind.
pub open spec fn kind_debug(k: Option<Seq<char>>) -> Seq<char> {
    match k {
        Some(x) => "Some(\""@ + x + "\")"@,
        None => "None"@,
    }
}

/// The relationship type suits the kinds of its source and target; symbols
/// of unknown kind pass.
pub open spec fn relationship_compatible(t: RelationshipType, sk: Option<Seq<char>>, tk: Option<Seq<char>>) -> bool {
    ||| sk is None
    ||| tk is None
    ||| (t == RelationshipType::RunOperationInput && sk == Some("RuntimeOperation"@)
        && (tk == Some("Variable"@) || tk == Some("GlobalObject"@)))
    ||| (t == RelationshipType::VariableUsage && (sk == Some("GlobalState"@) || sk == Some("GlobalObject"@))
        && tk == Some("Variable"@))
    ||| (t == RelationshipType::ObjectFieldExtraction && sk == Some("RuntimeOperation"@) && tk == Some("GlobalObject"@))
    ||| (t == RelationshipType::SetReference && sk == Some("SetOperation"@) && tk == Some("SetOperation"@))
    ||| (t == RelationshipType::ObjectReference && sk == Some("SetOperation"@) && tk == Some("GlobalObject"@))
}

/// The (type, source kind, target kind) triples that a relationship between
/// symbols of known kind may have: a RUN operation reads a variable or an
/// object, a global state or object uses a variable, a RUN operation
/// extracts from an object, and a SET references a SET or an object.
pub open spec fn allowed_relationship_kinds() -> Seq<(RelationshipType, Seq<char>, Seq<char>)> {
    seq![
        (RelationshipType::RunOperationInput, "RuntimeOperation"@, "Variable"@),
        (RelationshipType::RunOperationInput, "RuntimeOperation"@, "GlobalObject"@),
        (RelationshipType::VariableUsage, "GlobalState"@, "Variable"@),
        (RelationshipType::VariableUsage, "GlobalObject"@, "Variable"@),
        (RelationshipType::ObjectFieldExtraction, "RuntimeOperation"@, "GlobalObject"@),
        (RelationshipType::SetReference, "SetOperation"@, "SetOperation"@),
        (RelationshipType::ObjectReference, "SetOperation"@, "GlobalObject"@),
    ]
}

/// Between symbols of known kind, a relationship type suits the kinds of its
/// ends exactly when the triple is one of `allowed_relationship_kinds`; a
/// relationship with an end of unknown kind always suits.
pub proof fn lemma_relationship_compatibility_table(t: RelationshipType, sk: Seq<char>, tk: Seq<char>)
    ensures
        relationship_compatible(t, Some(sk), Some(tk)) <==> allowed_relationship_kinds().contains((t, sk, tk)),
        relationship_compatible(t, None, Some(tk)),
        relationship_compatible(t, Some(sk), None),
        relationship_compatible(t, None, None),
{
    let a = allowed_relationship_kinds();
    if a.contains((t, sk, tk)) {
        let j = choose|j: int| 0 <= j < a.len() && a[j] == (t, sk, tk);
        assert(0 <= j < 7);
    }
    if relationship_compatible(t, Some(sk), Some(tk)) {
        if t == RelationshipType::RunOperationInput && tk == "Variable"@ {
            assert(a[0] == (t, sk, tk));
        } else if t == RelationshipType::RunOperationInput {
            assert(a[1] == (t, sk, tk));
        } else if t == RelationshipType::VariableUsage && sk == "GlobalState"@ {
            assert(a[2] == (t, sk, tk));
        } else if t == RelationshipType::VariableUsage {
            assert(a[3] == (t, sk, tk));
        } else if t == RelationshipType::ObjectFieldExtraction {
            assert(a[4] == (t, sk, tk));
        } else if t == RelationshipType::SetReference {
            assert(a[5] == (t, sk, tk));
        } else {
            assert(a[6] == (t, sk, tk));
        }
    }
}

/// A relationship whose ends are both known, with a triple of
/// `allowed_relationship_kinds`, has no problem, so `validate_relationships`
/// finds nothing in it; with both ends known and a triple outside the table,
/// its only problem is the invalid type.
pub proof fn lemma_relationship_accepted_by_table(r: SymbolRelationship, i: nat, m: SymbolMetadata, sk: Seq<char>, tk: Seq<char>)
    requires
        symbol_kind(m, r.source@) == Some(sk),
        symbol_kind(m, r.target@) == Some(tk),
    ensures
        allowed_relationship_kinds().contains((r.relationship_type, sk, tk)) ==> relationship_problems(r, i, m).len() == 0,
        !allowed_relationship_kinds().contains((r.relationship_type, sk, tk)) ==> relationship_problems(r, i, m).len() == 1,
{
    lemma_relationship_compatibility_table(r.relationship_type, sk, tk);
}

/// The problems of the relationship at position `i`.
pub open spec fn relationship_problems(r: SymbolRelationship, i: nat, m: SymbolMetadata) -> Seq<Seq<char>> {
    let sk = symbol_kind(m, r.source@);
    let tk = symbol_kind(m, r.target@);
    let p = "Relationship "@ + decimal(i) + ": "@;
    (if sk is None { seq![p + "source symbol '"@ + r.source@ + "' not found in metadata"@] } else { Seq::empty() })
    + (if tk is None { seq![p + "target symbol '"@ + r.target@ + "' not found in metadata"@] } else { Seq::empty() })
    + (if !relationship_compatible(r.relationship_type, sk, tk) {
        seq![p + "Invalid relationship type '"@ + relationship_name(r.relationship_type) + "' between source type '"@
            + kind_debug(sk) + "' and target type '"@ + kind_debug(tk) + "'"@]
    } else {
        Seq::empty()
    })
}

/// The problems of a list of relationships, in order.
pub open spec fn relationships_problems(s: Seq<SymbolRelationship>, m: SymbolMetadata) -> Seq<Seq<char>>
    decreases s.len(),
{
    if s.len() == 0 {
        Seq::empty()
    } else {
        relationships_problems(s.drop_last(), m) + relationship_problems(s.last(), (s.len() - 1) as nat, m)
    }
}

/// The `Debug` text of an optional symbol kind.
fn kind_debug_text(k: Option<&'static str>) -> (res: String)
    ensures
        res@ == kind_debug(match k {
            Some(x) => Some(x@),
            None => None,
        }),
{
    match k {
        Some(x) => concat3("Some(\"", x, "\")"),
        None => to_owned_string("None"),
    }
}

/// Check each relationship against the symbol metadata: both ends exist and
/// the relationship type suits their kinds. `Ok` exactly when nothing is
/// found; otherwise every problem, in order, joined by "; ".
pub fn validate_relationships(relationships: &Vec<SymbolRelationship>, metadata: &SymbolMetadata)
    -> (res: Result<(), ResolutionError>)
    requires
        metadata_wf(*metadata),
    ensures
        match res {
            Ok(()) => relationships_problems(relationships@, *metadata).len() == 0,
            Err(e) => e matches ResolutionError::InvalidInput { message }
                && relationships_problems(relationships@, *metadata).len() > 0
                && message@ == "Relationship validation failed: "@ + join_sep(relationships_problems(relationships@, *metadata), "; "@),
        },
{
    let mut errors: Vec<String> = Vec::new();
    let mut i: usize = 0;
    proof {
        assert(relationships@.subrange(0, 0) =~= Seq::<SymbolRelationship>::empty());
        assert(views(errors@) =~= Seq::<Seq<char>>::empty());
    }
    while i < relationships.len()
        invariant
            i <= relationships@.len(),
            metadata_wf(*metadata),
            views(errors@) == relationships_problems(relationships@.subrange(0, i as int), *metadata),
        decreases relationships@.len() - i,
    {
        proof {
            let sub = relationships@.subrange(0, i + 1);
            assert(sub.drop_last() =~= relationships@.subrange(0, i as int));
            assert(sub.last() == relationships@[i as int]);
        }
        let r = &relationships[i];
        let ghost e0 = views(errors@);
        let n = usize_to_string(i);
        let prefix = concat3("Relationship ", n.as_str(), ": ");
        let sk = metadata.get_symbol_type(r.source.as_str());
        let tk = metadata.get_symbol_type(r.target.as_str());
        let ghost skv: Option<Seq<char>> = match sk { Some(x) => Some(x@), None => None };
        let ghost tkv: Option<Seq<char>> = match tk { Some(x) => Some(x@), None => None };
        if sk.is_none() {
            errors.push(concat4(prefix.as_str(), "source symbol '", r.source.as_str(), "' not found in metadata"));
        }
        let ghost e1 = views(errors@);
        if tk.is_none() {
            errors.push(concat4(prefix.as_str(), "target symbol '", r.target.as_str(), "' not found in metadata"));
        }
        let ghost e2 = views(errors@);
        let compatible = relationship_types_compatible(r.relationship_type, sk, tk);
        if !compatible {
            let a = concat4(prefix.as_str(), "Invalid relationship type '", r.relationship_type.as_str(),
                "' between source type '");
            let b = kind_debug_text(sk);
            let c = kind_debug_text(tk);
            errors.push(concat5(a.as_str(), b.as_str(), "' and target type '", c.as_str(), "'"));
        }
        proof {
            assert(e1 =~= e0 + (if skv is None {
                seq![prefix@ + "source symbol '"@ + r.source@ + "' not found in metadata"@] } else { Seq::empty() }));
            assert(e2 =~= e1 + (if tkv is None {
                seq![prefix@ + "target symbol '"@ + r.target@ + "' not found in metadata"@] } else { Seq::empty() }));
            assert(views(errors@) =~= e0 + relationship_problems(*r, i as nat, *metadata));
        }
        i = i + 1;
    }
    proof {
        assert(relationships@.subrange(0, relationships@.len() as int) =~= relationships@);
    }
    if errors.len() == 0 {
        Ok(())
    } else {
        let summary = join_strings(&errors, "; ");
        Err(ResolutionError::InvalidInput { message: concat2("Relationship validation failed: ", summary.as_str()) })
    }
}

/// Whether the relationship type suits the kinds of its source and target.
fn relationship_types_compatible(t: RelationshipType, sk: Option<&'static str>, tk: Option<&'static str>) -> (res: bool)
    ensures
        res == relationship_compatible(t,
            match sk { Some(x) => Some(x@), None => None },
            match tk { Some(x) => Some(x@), None => None }),
{
    let (s, g) = match (sk, tk) {
        (Some(s), Some(g)) => (s, g),
        _ => {
            return true;
        },
    };
    let s_run = crate::strings::str_eq(s, "RuntimeOperation");
    let s_state = crate::strings::str_eq(s, "GlobalState");
    let s_object = crate::strings::str_eq(s, "GlobalObject");
    let s_set = crate::strings::str_eq(s, "SetOperation");
    let g_var = crate::strings::str_eq(g, "Variable");
    let g_object = crate::strings::str_eq(g, "GlobalObject");
    let g_set = crate::strings::str_eq(g, "SetOperation");
    match t {
        RelationshipType::RunOperationInput => s_run && (g_var || g_object),
        RelationshipType::VariableUsage => (s_state || s_object) && g_var,
        RelationshipType::ObjectFieldExtraction => s_run && g_object,
        RelationshipType::SetReference => s_set && g_set,
        RelationshipType::ObjectReference => s_set && g_object,
        _ => false,
    }
}

} // verus!
