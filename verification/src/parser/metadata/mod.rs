//! Checks of the META block: the fields that scan output requires, their
//! values, and reserved names and lengths.

use vstd::prelude::*;
use crate::strings::{concat2, concat3, join_strings, join_sep, trimmed, trim_str, to_owned_string, usize_to_string,
    decimal};
use crate::json::{JsonValue, json_get, json_get_str};
use crate::string_map::StringMap;
use crate::types::metadata::MetaDataBlock;
use crate::resolution::error::ResolutionError;

pub mod error;

verus! {

/// The number of bytes of the UTF-8 encoding of `s`.
pub open spec fn byte_len(s: Seq<char>) -> nat {
    vstd::utf8::encode_utf8(s).len()
}

/// What `str::to_lowercase` makes of `s`.
pub uninterp spec fn lowercase(s: Seq<char>) -> Seq<char>;

/// `c` with an ASCII capital letter turned into its small letter.
pub open spec fn ascii_lower_char(c: char) -> char {
    if 'A' <= c && c <= 'Z' { ((c as u32) + 32) as char } else { c }
}

/// `str::to_lowercase`: `s` mapped to lowercase by the Unicode case tables.
/// The contract names the result; for text of ASCII characters alone it
/// states it: each capital letter becomes its small letter, the rest stays,
/// as the standard library documents for ASCII.
#[verifier::external_body]
pub(crate) fn lowercase_str(s: &str) -> (res: String)
    ensures
        res@ == lowercase(s@),
        (forall|i: int| 0 <= i < s@.len() ==> (#[trigger] s@[i] as u32) < 128) ==> res@
            == s@.map_values(|c: char| ascii_lower_char(c)),
{
    s.to_lowercase()
}

/// Whether `s` contains the character `c`.
fn str_contains_char(s: &str, c: char) -> (res: bool)
    ensures
        res == s@.contains(c),
{
    let n = s.unicode_len();
    let mut i: usize = 0;
    while i < n
        invariant
            i <= n,
            n == s@.len(),
            forall|j: int| 0 <= j < i ==> s@[j] != c,
        decreases n - i,
    {
        if s.get_char(i) == c {
            return true;
        }
        i = i + 1;
    }
    false
}

/// The fields that scan output requires, in the order they are checked.
pub open spec fn required_fields() -> Seq<Seq<char>> {
    seq!["ics_scan_id"@, "control_framework"@, "control"@, "platform"@, "criticality"@, "tags"@]
}

/// The required fields, in the order they are checked.
pub fn get_required_fields() -> (res: Vec<&'static str>)
    ensures
        res@.map_values(|s: &str| s@) == required_fields(),
{
    let mut v: Vec<&'static str> = Vec::new();
    v.push("ics_scan_id");
    v.push("control_framework");
    v.push("control");
    v.push("platform");
    v.push("criticality");
    v.push("tags");
    proof {
        assert(v@.map_values(|s: &str| s@) =~= required_fields());
    }
    v
}

/// The required fields among `s` that the metadata lacks, in order.
pub open spec fn missing_fields(m: MetaDataBlock, s: Seq<Seq<char>>) -> Seq<Seq<char>>
    decreases s.len(),
{
    if s.len() == 0 {
        Seq::empty()
    } else {
        missing_fields(m, s.drop_last()) + if !m.fields.has(s.last()) { seq![s.last()] } else { Seq::empty() }
    }
}

/// The required fields among `s` whose value is blank, in order.
pub open spec fn blank_fields(m: MetaDataBlock, s: Seq<Seq<char>>) -> Seq<Seq<char>>
    decreases s.len(),
{
    if s.len() == 0 {
        Seq::empty()
    } else {
        blank_fields(m, s.drop_last())
            + if m.fields.has(s.last()) && trimmed(m.fields.at(s.last())@).len() == 0 { seq![s.last()] } else { Seq::empty() }
    }
}

/// The message that lists the missing and blank required fields.
pub open spec fn mandatory_message(missing: Seq<Seq<char>>, blank: Seq<Seq<char>>) -> Seq<char> {
    "ICS scan output validation failed:"@
        + (if missing.len() > 0 { " Missing required fields: ["@ + join_sep(missing, ", "@) + "]"@ } else { Seq::empty() })
        + (if blank.len() > 0 { " Empty required fields: ["@ + join_sep(blank, ", "@) + "]"@ } else { Seq::empty() })
}

/// Checks that every field that scan output requires is present and not
/// blank; the error lists all that are missing and all that are blank.
pub fn validate_mandatory_fields(metadata: &MetaDataBlock) -> (res: Result<(), ResolutionError>)
    requires
        metadata.fields.wf(),
    ensures
        res is Ok <==> missing_fields(*metadata, required_fields()).len() == 0
            && blank_fields(*metadata, required_fields()).len() == 0,
        res matches Err(e) ==> (e matches ResolutionError::InvalidInput { message }
            && message@ == mandatory_message(missing_fields(*metadata, required_fields()),
                blank_fields(*metadata, required_fields()))),
{
    let required = get_required_fields();
    let ghost req = required_fields();
    let mut missing: Vec<String> = Vec::new();
    let mut blank: Vec<String> = Vec::new();
    let mut i: usize = 0;
    proof {
        assert(req.subrange(0, 0) =~= Seq::<Seq<char>>::empty());
    }
    while i < required.len()
        invariant
            i <= req.len(),
            required@.len() == req.len(),
            required@.map_values(|s: &str| s@) == req,
            metadata.fields.wf(),
            missing@.map_values(|x: String| x@) == missing_fields(*metadata, req.subrange(0, i as int)),
            blank@.map_values(|x: String| x@) == blank_fields(*metadata, req.subrange(0, i as int)),
        decreases req.len() - i,
    {
        let field = required[i];
        proof {
            assert(req.subrange(0, i + 1).drop_last() =~= req.subrange(0, i as int));
            assert(req.subrange(0, i + 1).last() == field@);
        }
        let ghost m0 = missing@.map_values(|x: String| x@);
        let ghost b0 = blank@.map_values(|x: String| x@);
        match metadata.fields.get(field) {
            Some(value) => {
                if trim_str(value.as_str()).unicode_len() == 0 {
                    blank.push(String::from_str(field));
                    proof {
                        assert(blank@.map_values(|x: String| x@) =~= b0 + seq![field@]);
                    }
                } else {
                    proof {
                        assert(blank@.map_values(|x: String| x@) =~= b0 + Seq::<Seq<char>>::empty());
                    }
                }
                proof {
                    assert(missing@.map_values(|x: String| x@) =~= m0 + Seq::<Seq<char>>::empty());
                }
            },
            None => {
                missing.push(String::from_str(field));
                proof {
                    assert(missing@.map_values(|x: String| x@) =~= m0 + seq![field@]);
                    assert(blank@.map_values(|x: String| x@) =~= b0 + Seq::<Seq<char>>::empty());
                }
            },
        }
        i = i + 1;
    }
    proof {
        assert(req.subrange(0, req.len() as int) =~= req);
    }
    if missing.len() > 0 || blank.len() > 0 {
        let mut message = String::from_str("ICS scan output validation failed:");
        let ghost s0 = message@;
        if missing.len() > 0 {
            message.append(" Missing required fields: [");
            message.append(join_strings(&missing, ", ").as_str());
            message.append("]");
        }
        let ghost s1 = message@;
        if blank.len() > 0 {
            message.append(" Empty required fields: [");
            message.append(join_strings(&blank, ", ").as_str());
            message.append("]");
        }
        proof {
            let mv = missing@.map_values(|x: String| x@);
            let bv = blank@.map_values(|x: String| x@);
            let mpart = if mv.len() > 0 { " Missing required fields: ["@ + join_sep(mv, ", "@) + "]"@ } else { Seq::<char>::empty() };
            let bpart = if bv.len() > 0 { " Empty required fields: ["@ + join_sep(bv, ", "@) + "]"@ } else { Seq::<char>::empty() };
            assert(s1 =~= s0 + mpart);
            assert(message@ =~= s0 + mpart + bpart);
        }
        return Err(ResolutionError::InvalidInput { message });
    }
    Ok(())
}

/// The value of a field is too short once trimmed (under two bytes).
pub open spec fn too_short(v: Seq<char>) -> bool {
    byte_len(trimmed(v)) < 2
}

/// The criticality levels accepted, in lowercase.
pub open spec fn criticality_levels() -> Seq<Seq<char>> {
    seq!["low"@, "medium"@, "high"@, "critical"@]
}

/// The first problem with the values of the scan output fields, if any:
/// the scan id (at least 8 bytes, no spaces), the criticality level, and
/// the framework, control, platform and tags (at least 2 bytes once trimmed).
pub open spec fn field_value_problem(m: MetaDataBlock) -> Option<Seq<char>> {
    let f = m.fields;
    if f.has("ics_scan_id"@) && byte_len(f.at("ics_scan_id"@)@) < 8 {
        Some("Invalid ics_scan_id format: '"@ + f.at("ics_scan_id"@)@ + "' (too short)"@)
    } else if f.has("ics_scan_id"@) && f.at("ics_scan_id"@)@.contains(' ') {
        Some("Invalid ics_scan_id format: '"@ + f.at("ics_scan_id"@)@ + "' (spaces not allowed)"@)
    } else if f.has("criticality"@) && !criticality_levels().contains(lowercase(f.at("criticality"@)@)) {
        Some("Invalid criticality value: '"@ + f.at("criticality"@)@ + "' (valid: low, medium, high, critical)"@)
    } else if f.has("control_framework"@) && too_short(f.at("control_framework"@)@) {
        Some("Control framework too short: '"@ + f.at("control_framework"@)@ + "'"@)
    } else if f.has("control"@) && too_short(f.at("control"@)@) {
        Some("Control identifier too short: '"@ + f.at("control"@)@ + "'"@)
    } else if f.has("platform"@) && too_short(f.at("platform"@)@) {
        Some("Platform identifier too short: '"@ + f.at("platform"@)@ + "'"@)
    } else if f.has("tags"@) && too_short(f.at("tags"@)@) {
        Some("Tags field too short: '"@ + f.at("tags"@)@ + "'"@)
    } else {
        None
    }
}

/// Checks the values of the scan output fields that are present.
pub fn validate_ics_scan_field_values(metadata: &MetaDataBlock) -> (res: Result<(), ResolutionError>)
    requires
        metadata.fields.wf(),
    ensures
        match field_value_problem(*metadata) {
            None => res is Ok,
            Some(msg) => res matches Err(ResolutionError::InvalidInput { message }) && message@ == msg,
        },
{
    if let Some(scan_id) = metadata.fields.get("ics_scan_id") {
        if scan_id.as_str().as_bytes().len() < 8 {
            return Err(ResolutionError::InvalidInput {
                message: concat3("Invalid ics_scan_id format: '", scan_id.as_str(), "' (too short)"),
            });
        }
        if str_contains_char(scan_id.as_str(), ' ') {
            return Err(ResolutionError::InvalidInput {
                message: concat3("Invalid ics_scan_id format: '", scan_id.as_str(), "' (spaces not allowed)"),
            });
        }
    }
    if let Some(criticality) = metadata.fields.get("criticality") {
        let lower = lowercase_str(criticality.as_str());
        let l = lower.as_str();
        let ok = crate::strings::str_eq(l, "low") || crate::strings::str_eq(l, "medium")
            || crate::strings::str_eq(l, "high") || crate::strings::str_eq(l, "critical");
        proof {
            assert(criticality_levels()[0] == "low"@);
            assert(criticality_levels()[1] == "medium"@);
            assert(criticality_levels()[2] == "high"@);
            assert(criticality_levels()[3] == "critical"@);
            if criticality_levels().contains(l@) {
                let j = choose|j: int| 0 <= j < 4 && criticality_levels()[j] == l@;
            }
        }
        if !ok {
            return Err(ResolutionError::InvalidInput {
                message: concat3("Invalid criticality value: '", criticality.as_str(), "' (valid: low, medium, high, critical)"),
            });
        }
    }
    if let Some(framework) = metadata.fields.get("control_framework") {
        if trim_str(framework.as_str()).as_bytes().len() < 2 {
            return Err(ResolutionError::InvalidInput {
                message: concat3("Control framework too short: '", framework.as_str(), "'"),
            });
        }
    }
    if let Some(control) = metadata.fields.get("control") {
        if trim_str(control.as_str()).as_bytes().len() < 2 {
            return Err(ResolutionError::InvalidInput {
                message: concat3("Control identifier too short: '", control.as_str(), "'"),
            });
        }
    }
    if let Some(platform) = metadata.fields.get("platform") {
        if trim_str(platform.as_str()).as_bytes().len() < 2 {
            return Err(ResolutionError::InvalidInput {
                message: concat3("Platform identifier too short: '", platform.as_str(), "'"),
            });
        }
    }
    if let Some(tags) = metadata.fields.get("tags") {
        if trim_str(tags.as_str()).as_bytes().len() < 2 {
            return Err(ResolutionError::InvalidInput {
                message: concat3("Tags field too short: '", tags.as_str(), "'"),
            });
        }
    }
    Ok(())
}

/// Whether the metadata has the field `field_name`.
pub fn metadata_has_field(metadata: &MetaDataBlock, field_name: &str) -> (res: bool)
    ensures
        res == metadata.fields.has(field_name@),
{
    metadata.fields.contains_key(field_name)
}

/// The value of the field `field_name`, if the metadata has it.
pub fn get_metadata_field<'a>(metadata: &'a MetaDataBlock, field_name: &str) -> (res: Option<&'a String>)
    requires
        metadata.fields.wf(),
    ensures
        match res {
            Some(v) => metadata.fields.has(field_name@) && *v == metadata.fields.at(field_name@),
            None => !metadata.fields.has(field_name@),
        },
{
    metadata.fields.get(field_name)
}

/// The names of the metadata fields, in the order they were added.
pub fn get_metadata_field_names(metadata: &MetaDataBlock) -> (res: Vec<String>)
    ensures
        res@.map_values(|x: String| x@) == metadata.fields.spec_keys(),
{
    let ghost keys = metadata.fields.spec_keys();
    let mut out: Vec<String> = Vec::new();
    let mut i: usize = 0;
    while i < metadata.fields.entries.len()
        invariant
            i <= metadata.fields.entries@.len(),
            keys == metadata.fields.spec_keys(),
            out@.map_values(|x: String| x@) == keys.subrange(0, i as int),
        decreases metadata.fields.entries@.len() - i,
    {
        let ghost before = out@;
        out.push(metadata.fields.entries[i].0.clone());
        proof {
            assert(out@.map_values(|x: String| x@) =~= before.map_values(|x: String| x@).push(metadata.fields.entries@[i as int].0@));
            assert(keys[i as int] == metadata.fields.entries@[i as int].0@);
            assert(out@.map_values(|x: String| x@) =~= keys.subrange(0, i + 1));
        }
        i = i + 1;
    }
    proof {
        assert(keys.subrange(0, keys.len() as int) =~= keys);
    }
    out
}

/// The first reserved field name (id, type, version, schema) that the
/// metadata uses, if any.
pub open spec fn first_reserved(m: MetaDataBlock) -> Option<Seq<char>> {
    if m.fields.has("id"@) {
        Some("id"@)
    } else if m.fields.has("type"@) {
        Some("type"@)
    } else if m.fields.has("version"@) {
        Some("version"@)
    } else if m.fields.has("schema"@) {
        Some("schema"@)
    } else {
        None
    }
}

/// The first field, in order, whose name is over 100 bytes or whose value
/// is over 1000 bytes, with the message that reports it.
pub open spec fn length_problem(entries: Seq<(String, String)>) -> Option<Seq<char>>
    decreases entries.len(),
{
    if entries.len() == 0 {
        None
    } else {
        match length_problem(entries.drop_last()) {
            Some(m) => Some(m),
            None => {
                let (k, v) = entries.last();
                if byte_len(k@) > 100 {
                    Some("Field name '"@ + k@ + "' too long (max 100 chars)"@)
                } else if byte_len(v@) > 1000 {
                    Some("Field '"@ + k@ + "' value too long (max 1000 chars)"@)
                } else {
                    None
                }
            },
        }
    }
}

/// Once a prefix has a length problem, the whole list has the same one.
proof fn lemma_length_problem_extends(s: Seq<(String, String)>, k: int)
    requires
        0 <= k <= s.len(),
        length_problem(s.subrange(0, k)) is Some,
    ensures
        length_problem(s) == length_problem(s.subrange(0, k)),
    decreases s.len(),
{
    if k == s.len() {
        assert(s.subrange(0, k) =~= s);
    } else {
        assert(s.drop_last().subrange(0, k) =~= s.subrange(0, k));
        lemma_length_problem_extends(s.drop_last(), k);
    }
}

/// Checks the business rules of a META block: no reserved field name, and
/// no field name over 100 bytes or value over 1000 bytes.
pub fn validate_metadata(metadata: &MetaDataBlock) -> (res: Result<(), ResolutionError>)
    ensures
        match first_reserved(*metadata) {
            Some(r) => res matches Err(ResolutionError::InvalidInput { message })
                && message@ == "Reserved field name '"@ + r + "' not allowed in metadata"@,
            None => match length_problem(metadata.fields.entries@) {
                Some(msg) => res matches Err(ResolutionError::InvalidInput { message }) && message@ == msg,
                None => res is Ok,
            },
        },
{
    if metadata.fields.contains_key("id") {
        return Err(ResolutionError::InvalidInput { message: concat3("Reserved field name '", "id", "' not allowed in metadata") });
    }
    if metadata.fields.contains_key("type") {
        return Err(ResolutionError::InvalidInput { message: concat3("Reserved field name '", "type", "' not allowed in metadata") });
    }
    if metadata.fields.contains_key("version") {
        return Err(ResolutionError::InvalidInput { message: concat3("Reserved field name '", "version", "' not allowed in metadata") });
    }
    if metadata.fields.contains_key("schema") {
        return Err(ResolutionError::InvalidInput { message: concat3("Reserved field name '", "schema", "' not allowed in metadata") });
    }
    let ghost entries = metadata.fields.entries@;
    let mut i: usize = 0;
    while i < metadata.fields.entries.len()
        invariant
            i <= entries.len(),
            entries == metadata.fields.entries@,
            first_reserved(*metadata) is None,
            length_problem(entries.subrange(0, i as int)) is None,
        decreases entries.len() - i,
    {
        let key = &metadata.fields.entries[i].0;
        let value = &metadata.fields.entries[i].1;
        proof {
            assert(entries.subrange(0, i + 1).drop_last() =~= entries.subrange(0, i as int));
            assert(entries.subrange(0, i + 1).last() == entries[i as int]);
        }
        if key.as_str().as_bytes().len() > 100 {
            proof {
                lemma_length_problem_extends(entries, i + 1);
            }
            return Err(ResolutionError::InvalidInput {
                message: concat3("Field name '", key.as_str(), "' too long (max 100 chars)"),
            });
        }
        if value.as_str().as_bytes().len() > 1000 {
            proof {
                lemma_length_problem_extends(entries, i + 1);
            }
            return Err(ResolutionError::InvalidInput {
                message: concat3("Field '", key.as_str(), "' value too long (max 1000 chars)"),
            });
        }
        i = i + 1;
    }
    proof {
        assert(entries.subrange(0, entries.len() as int) =~= entries);
    }
    Ok(())
}

/// The name of the kind of a JSON value, as metadata errors spell it.
pub open spec fn json_type_name(v: JsonValue) -> Seq<char> {
    match v {
        JsonValue::Null => "null"@,
        JsonValue::Bool(_) => "boolean"@,
        JsonValue::Number(_) => "number"@,
        JsonValue::String(_) => "string"@,
        JsonValue::Array(_) => "array"@,
        JsonValue::Object(_) => "object"@,
    }
}

/// The name of the kind of a JSON value, as metadata errors spell it.
fn get_json_type_name(value: &JsonValue) -> (res: &'static str)
    ensures
        res@ == json_type_name(*value),
{
    match value {
        JsonValue::Null => "null",
        JsonValue::Bool(_) => "boolean",
        JsonValue::Number(_) => "number",
        JsonValue::String(_) => "string",
        JsonValue::Array(_) => "array",
        JsonValue::Object(_) => "object",
    }
}

/// The (name, value) pairs of a list of metadata fields, when each is an
/// object with a non-blank `name` string, a `value` string, and a name not
/// seen before; otherwise the message of the first error.
pub open spec fn metadata_fields_outcome(items: Seq<JsonValue>) -> Result<Seq<(Seq<char>, Seq<char>)>, Seq<char>>
    decreases items.len(),
{
    if items.len() == 0 {
        Ok(Seq::empty())
    } else {
        match metadata_fields_outcome(items.drop_last()) {
            Err(m) => Err(m),
            Ok(p) => {
                let f = items.last();
                let i = (items.len() - 1) as nat;
                if !(f is Object) {
                    Err("Metadata field at index "@ + decimal(i) + " must be an object"@)
                } else if json_get_str(f, "name"@) is None {
                    Err("Metadata field at index "@ + decimal(i) + " missing 'name'"@)
                } else if json_get_str(f, "value"@) is None {
                    Err("Metadata field '"@ + json_get_str(f, "name"@)->Some_0 + "' missing 'value'"@)
                } else if trimmed(json_get_str(f, "name"@)->Some_0).len() == 0 {
                    Err("Metadata field name cannot be empty or whitespace only"@)
                } else if p.map_values(|q: (Seq<char>, Seq<char>)| q.0).contains(json_get_str(f, "name"@)->Some_0) {
                    Err("Duplicate metadata field name: '"@ + json_get_str(f, "name"@)->Some_0 + "'"@)
                } else {
                    Ok(p.push((json_get_str(f, "name"@)->Some_0, json_get_str(f, "value"@)->Some_0)))
                }
            },
        }
    }
}

/// Once a prefix of the fields fails, the whole list fails the same way.
proof fn lemma_metadata_fields_error_extends(items: Seq<JsonValue>, k: int)
    requires
        0 <= k <= items.len(),
        metadata_fields_outcome(items.subrange(0, k)) is Err,
    ensures
        metadata_fields_outcome(items) == metadata_fields_outcome(items.subrange(0, k)),
    decreases items.len() - k,
{
    if k == items.len() {
        assert(items.subrange(0, k) =~= items);
    } else {
        assert(items.subrange(0, k + 1).drop_last() =~= items.subrange(0, k));
        lemma_metadata_fields_error_extends(items, k + 1);
    }
}

/// The message of the error a metadata block gives when parsed, if any.
pub open spec fn metadata_parse_error(m: JsonValue) -> Option<Seq<char>> {
    if !(m is Object) {
        Some("Metadata must be an object, found "@ + json_type_name(m))
    } else {
        match json_get(m, "fields"@) {
            None => Some("Metadata missing fields array"@),
            Some(JsonValue::Array(a)) => match metadata_fields_outcome(a@) {
                Err(msg) => Some(msg),
                Ok(p) => if p.len() == 0 { Some("Metadata must contain at least one field"@) } else { None },
            },
            Some(f) => Some("Metadata fields must be an array, found "@ + json_type_name(f)),
        }
    }
}

/// The fields of a metadata block as (name, value) pairs, in order.
pub open spec fn metadata_pairs(b: MetaDataBlock) -> Seq<(Seq<char>, Seq<char>)> {
    b.fields.entries@.map_values(|e: (String, String)| (e.0@, e.1@))
}

/// Parse a metadata block: `{"fields": [{"name": .., "value": ..}, ..]}`.
pub fn parse_metadata_from_json(metadata_json: &JsonValue) -> (res: Result<MetaDataBlock, ResolutionError>)
    ensures
        match res {
            Ok(b) => {
                &&& metadata_parse_error(*metadata_json) is None
                &&& b.fields.wf()
                &&& json_get(*metadata_json, "fields"@) matches Some(JsonValue::Array(a))
                &&& metadata_fields_outcome(a@) == Ok::<Seq<(Seq<char>, Seq<char>)>, Seq<char>>(metadata_pairs(b))
            },
            Err(e) => e matches ResolutionError::InvalidInput { message } && metadata_parse_error(*metadata_json) == Some(message@),
        },
{
    if !metadata_json.is_object() {
        return Err(ResolutionError::InvalidInput {
            message: concat2("Metadata must be an object, found ", get_json_type_name(metadata_json)),
        });
    }
    let fields_json = match metadata_json.get("fields") {
        Some(f) => f,
        None => {
            return Err(ResolutionError::InvalidInput { message: to_owned_string("Metadata missing fields array") });
        },
    };
    let items = match fields_json.as_array() {
        Some(a) => a,
        None => {
            return Err(ResolutionError::InvalidInput {
                message: concat2("Metadata fields must be an array, found ", get_json_type_name(fields_json)),
            });
        },
    };
    let mut fields: StringMap<String> = StringMap::new();
    let mut i: usize = 0;
    proof {
        assert(items@.subrange(0, 0) =~= Seq::<JsonValue>::empty());
        assert(metadata_pairs(MetaDataBlock { fields }) =~= Seq::<(Seq<char>, Seq<char>)>::empty());
    }
    while i < items.len()
        invariant
            i <= items@.len(),
            json_get(*metadata_json, "fields"@) == Some(JsonValue::Array(*items)),
            *metadata_json is Object,
            fields.wf(),
            metadata_fields_outcome(items@.subrange(0, i as int))
                == Ok::<Seq<(Seq<char>, Seq<char>)>, Seq<char>>(metadata_pairs(MetaDataBlock { fields })),
        decreases items@.len() - i,
    {
        let ghost pairs = metadata_pairs(MetaDataBlock { fields });
        proof {
            let sub = items@.subrange(0, i + 1);
            assert(sub.drop_last() =~= items@.subrange(0, i as int));
            assert(sub.last() == items@[i as int]);
        }
        let f = &items[i];
        let n = usize_to_string(i);
        if !f.is_object() {
            proof { lemma_metadata_fields_error_extends(items@, i + 1); }
            return Err(ResolutionError::InvalidInput {
                message: concat3("Metadata field at index ", n.as_str(), " must be an object"),
            });
        }
        let name = match f.get_str("name") {
            Some(x) => x,
            None => {
                proof { lemma_metadata_fields_error_extends(items@, i + 1); }
                return Err(ResolutionError::InvalidInput {
                    message: concat3("Metadata field at index ", n.as_str(), " missing 'name'"),
                });
            },
        };
        let value = match f.get_str("value") {
            Some(x) => x,
            None => {
                proof { lemma_metadata_fields_error_extends(items@, i + 1); }
                return Err(ResolutionError::InvalidInput {
                    message: concat3("Metadata field '", name, "' missing 'value'"),
                });
            },
        };
        if trim_str(name).unicode_len() == 0 {
            proof { lemma_metadata_fields_error_extends(items@, i + 1); }
            return Err(ResolutionError::InvalidInput {
                message: to_owned_string("Metadata field name cannot be empty or whitespace only"),
            });
        }
        proof {
            assert(fields.spec_keys() =~= pairs.map_values(|q: (Seq<char>, Seq<char>)| q.0));
        }
        if fields.contains_key(name) {
            proof { lemma_metadata_fields_error_extends(items@, i + 1); }
            return Err(ResolutionError::InvalidInput { message: concat3("Duplicate metadata field name: '", name, "'") });
        }
        let ghost before = fields;
        fields.insert(to_owned_string(name), to_owned_string(value));
        proof {
            assert(metadata_pairs(MetaDataBlock { fields }) =~= pairs.push((name@, value@)));
        }
        i = i + 1;
    }
    proof {
        assert(items@.subrange(0, items@.len() as int) =~= items@);
    }
    if fields.len() == 0 {
        return Err(ResolutionError::InvalidInput { message: to_owned_string("Metadata must contain at least one field") });
    }
    Ok(MetaDataBlock { fields })
}

/// `b` is the metadata block of the AST: present, not null, and parsed
/// from its fields.
pub open spec fn metadata_read(ast: JsonValue, b: MetaDataBlock) -> bool {
    &&& json_get(ast, "metadata"@) matches Some(m)
    &&& !(m is Null)
    &&& metadata_parse_error(m) is None
    &&& json_get(m, "fields"@) matches Some(JsonValue::Array(a))
    &&& metadata_fields_outcome(a@) == Ok::<Seq<(Seq<char>, Seq<char>)>, Seq<char>>(metadata_pairs(b))
}

/// Two blocks with the same field pairs have the same fields and values.
proof fn lemma_same_pairs_fields(b1: MetaDataBlock, b2: MetaDataBlock)
    requires
        b1.fields.wf(),
        b2.fields.wf(),
        metadata_pairs(b1) == metadata_pairs(b2),
    ensures
        forall|k: Seq<char>| #[trigger] b1.fields.has(k) == b2.fields.has(k),
        forall|k: Seq<char>| b1.fields.has(k) ==> #[trigger] b1.fields.at(k)@ == b2.fields.at(k)@,
{
    let e1 = b1.fields.entries@;
    let e2 = b2.fields.entries@;
    assert(e1.len() == e2.len()) by {
        assert(metadata_pairs(b1).len() == e1.len());
        assert(metadata_pairs(b2).len() == e2.len());
    }
    assert forall|i: int| 0 <= i < e1.len() implies e1[i].0@ == e2[i].0@ && e1[i].1@ == e2[i].1@ by {
        assert(metadata_pairs(b1)[i] == metadata_pairs(b2)[i]);
    }
    assert(b1.fields.spec_keys() =~= b2.fields.spec_keys());
}

/// The mandatory-field checks depend only on the field pairs.
proof fn lemma_same_pairs_checks(b1: MetaDataBlock, b2: MetaDataBlock, s: Seq<Seq<char>>)
    requires
        forall|k: Seq<char>| #[trigger] b1.fields.has(k) == b2.fields.has(k),
        forall|k: Seq<char>| b1.fields.has(k) ==> #[trigger] b1.fields.at(k)@ == b2.fields.at(k)@,
    ensures
        missing_fields(b1, s) == missing_fields(b2, s),
        blank_fields(b1, s) == blank_fields(b2, s),
    decreases s.len(),
{
    if s.len() > 0 {
        lemma_same_pairs_checks(b1, b2, s.drop_last());
        if b1.fields.has(s.last()) {
            assert(b1.fields.at(s.last())@ == b2.fields.at(s.last())@);
        }
    }
}

/// A metadata block that reads and passes every check leaves no way for
/// reading the metadata to fail.
pub proof fn lemma_metadata_read_passes(ast: JsonValue, b: MetaDataBlock)
    requires
        b.fields.wf(),
        metadata_read(ast, b),
        missing_fields(b, required_fields()).len() == 0,
        blank_fields(b, required_fields()).len() == 0,
        field_value_problem(b) is None,
    ensures
        forall|b2: MetaDataBlock| #[trigger] metadata_read(ast, b2) && b2.fields.wf() ==> {
            &&& missing_fields(b2, required_fields()).len() == 0
            &&& blank_fields(b2, required_fields()).len() == 0
            &&& field_value_problem(b2) is None
        },
{
    assert forall|b2: MetaDataBlock| #[trigger] metadata_read(ast, b2) && b2.fields.wf() implies {
        &&& missing_fields(b2, required_fields()).len() == 0
        &&& blank_fields(b2, required_fields()).len() == 0
        &&& field_value_problem(b2) is None
    } by {
        lemma_same_pairs_fields(b, b2);
        lemma_same_pairs_checks(b, b2, required_fields());
        let f1 = b.fields;
        let f2 = b2.fields;
        assert(f1.has("ics_scan_id"@) == f2.has("ics_scan_id"@));
        assert(f1.has("criticality"@) == f2.has("criticality"@));
        assert(f1.has("control_framework"@) == f2.has("control_framework"@));
        assert(f1.has("control"@) == f2.has("control"@));
        if f1.has("ics_scan_id"@) { assert(f1.at("ics_scan_id"@)@ == f2.at("ics_scan_id"@)@); }
        if f1.has("criticality"@) { assert(f1.at("criticality"@)@ == f2.at("criticality"@)@); }
        if f1.has("control_framework"@) { assert(f1.at("control_framework"@)@ == f2.at("control_framework"@)@); }
        if f1.has("control"@) { assert(f1.at("control"@)@ == f2.at("control"@)@); }
        assert(f1.has("platform"@) == f2.has("platform"@));
        assert(f1.has("tags"@) == f2.has("tags"@));
        if f1.has("platform"@) { assert(f1.at("platform"@)@ == f2.at("platform"@)@); }
        if f1.has("tags"@) { assert(f1.at("tags"@)@ == f2.at("tags"@)@); }
        assert(field_value_problem(b2) == field_value_problem(b));
    }
}

/// Read the metadata block of an AST (a sibling of the definition): it must
/// be present, parse, and carry the mandatory fields with valid values.
pub fn extract_metadata_from_json(ast_json: &JsonValue) -> (res: Result<MetaDataBlock, ResolutionError>)
    ensures
        match res {
            Ok(b) => {
                &&& b.fields.wf()
                &&& metadata_read(*ast_json, b)
                &&& missing_fields(b, required_fields()).len() == 0
                &&& blank_fields(b, required_fields()).len() == 0
                &&& field_value_problem(b) is None
            },
            Err(e) => e matches ResolutionError::InvalidInput { message } && match json_get(*ast_json, "metadata"@) {
                None => message@ == "ICS definition missing required metadata block"@,
                Some(m) => if m is Null {
                    message@ == "ICS definition has null metadata block"@
                } else {
                    match metadata_parse_error(m) {
                        Some(pm) => message@ == pm,
                        None => exists|b: MetaDataBlock| #[trigger] metadata_read(*ast_json, b) && b.fields.wf() && (
                            if missing_fields(b, required_fields()).len() > 0 || blank_fields(b, required_fields()).len() > 0 {
                                message@ == mandatory_message(missing_fields(b, required_fields()),
                                    blank_fields(b, required_fields()))
                            } else {
                                field_value_problem(b) == Some(message@)
                            }),
                    }
                },
            },
        },
{
    let metadata_json = match ast_json.get("metadata") {
        Some(m) => m,
        None => {
            return Err(ResolutionError::InvalidInput {
                message: to_owned_string("ICS definition missing required metadata block"),
            });
        },
    };
    if metadata_json.is_null() {
        return Err(ResolutionError::InvalidInput { message: to_owned_string("ICS definition has null metadata block") });
    }
    let block = match parse_metadata_from_json(metadata_json) {
        Ok(b) => b,
        Err(e) => {
            return Err(e);
        },
    };
    proof {
        assert(metadata_read(*ast_json, block));
    }
    match validate_mandatory_fields(&block) {
        Ok(()) => {},
        Err(e) => {
            return Err(e);
        },
    }
    match validate_ics_scan_field_values(&block) {
        Ok(()) => {},
        Err(e) => {
            return Err(e);
        },
    }
    Ok(block)
}

} // verus!
