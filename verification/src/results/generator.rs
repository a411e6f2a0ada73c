//! Compliance statistics over the results of the executed criteria.

use vstd::prelude::*;
use crate::execution::{CtnResult, FieldValidationResult, StateValidationResult};
use crate::results::types::{ComplianceFinding, is_hyphenated_uuid};
use crate::results::error::ResultGenerationError;
use crate::json::{JsonValue, json_str};
use crate::strings::{str_eq, concat2, concat3, join_strings, join_sep};
use crate::strategies::ComplianceStatus;
use crate::results::types::FindingSeverity;

verus! {

/// Turns criterion results into scan statistics.
#[derive(Debug)]
pub struct ResultGenerator;

/// Counts of criterion outcomes and the total execution time.
#[derive(Debug, Clone, Copy, PartialEq, Eq, Structural)]
pub struct ComplianceStatistics {
    pub total_criteria: u32,
    pub passed: u32,
    pub failed: u32,
    pub errors: u32,
    pub unknown: u32,
    pub total_execution_time_ms: u64,
}

impl Default for ComplianceStatistics {
    fn default() -> (res: ComplianceStatistics)
        ensures
            res == (ComplianceStatistics { total_criteria: 0, passed: 0, failed: 0, errors: 0, unknown: 0,
                total_execution_time_ms: 0 }),
    {
        ComplianceStatistics { total_criteria: 0, passed: 0, failed: 0, errors: 0, unknown: 0, total_execution_time_ms: 0 }
    }
}

/// The number of results with the given outcome.
pub open spec fn count_status(s: Seq<CtnResult>, st: ComplianceStatus) -> nat
    decreases s.len(),
{
    if s.len() == 0 { 0 } else { count_status(s.drop_last(), st) + if s.last().status == st { 1nat } else { 0nat } }
}

/// The total execution time of the results.
pub open spec fn total_time(s: Seq<CtnResult>) -> nat
    decreases s.len(),
{
    if s.len() == 0 { 0 } else { (total_time(s.drop_last()) + s.last().execution_time_ms) as nat }
}

/// Counts of one outcome never exceed the number of results.
proof fn lemma_count_le(s: Seq<CtnResult>, st: ComplianceStatus)
    ensures
        count_status(s, st) <= s.len(),
    decreases s.len(),
{
    if s.len() > 0 {
        lemma_count_le(s.drop_last(), st);
    }
}

/// A prefix takes no more time than the whole.
proof fn lemma_time_prefix(s: Seq<CtnResult>, k: int)
    requires
        0 <= k <= s.len(),
    ensures
        total_time(s.subrange(0, k)) <= total_time(s),
    decreases s.len() - k,
{
    if k < s.len() {
        lemma_time_prefix(s, k + 1);
        assert(s.subrange(0, k + 1).drop_last() =~= s.subrange(0, k));
    } else {
        assert(s.subrange(0, k) =~= s);
    }
}

impl ResultGenerator {
    /// Count the results by outcome and add up their execution times.
    pub fn generate_statistics(ctn_results: &Vec<CtnResult>) -> (res: ComplianceStatistics)
        requires
            ctn_results@.len() <= u32::MAX,
            total_time(ctn_results@) <= u64::MAX,
        ensures
            res.total_criteria == ctn_results@.len(),
            res.passed == count_status(ctn_results@, ComplianceStatus::Pass),
            res.failed == count_status(ctn_results@, ComplianceStatus::Fail),
            res.errors == count_status(ctn_results@, ComplianceStatus::Error),
            res.unknown == count_status(ctn_results@, ComplianceStatus::Unknown),
            res.total_execution_time_ms == total_time(ctn_results@),
    {
        let mut stats = ComplianceStatistics::default();
        let mut i: usize = 0;
        while i < ctn_results.len()
            invariant
                i <= ctn_results@.len(),
                ctn_results@.len() <= u32::MAX,
                total_time(ctn_results@) <= u64::MAX,
                stats.total_criteria == i,
                stats.passed == count_status(ctn_results@.subrange(0, i as int), ComplianceStatus::Pass),
                stats.failed == count_status(ctn_results@.subrange(0, i as int), ComplianceStatus::Fail),
                stats.errors == count_status(ctn_results@.subrange(0, i as int), ComplianceStatus::Error),
                stats.unknown == count_status(ctn_results@.subrange(0, i as int), ComplianceStatus::Unknown),
                stats.total_execution_time_ms == total_time(ctn_results@.subrange(0, i as int)),
            decreases ctn_results@.len() - i,
        {
            let ghost pre = ctn_results@.subrange(0, i as int);
            proof {
                assert(ctn_results@.subrange(0, i + 1).drop_last() =~= pre);
                assert(ctn_results@.subrange(0, i + 1).last() == ctn_results@[i as int]);
                lemma_count_le(pre, ComplianceStatus::Pass);
                lemma_count_le(pre, ComplianceStatus::Fail);
                lemma_count_le(pre, ComplianceStatus::Error);
                lemma_count_le(pre, ComplianceStatus::Unknown);
                lemma_time_prefix(ctn_results@, i + 1);
            }
            stats.total_criteria = stats.total_criteria + 1;
            match ctn_results[i].status {
                ComplianceStatus::Pass => { stats.passed = stats.passed + 1; },
                ComplianceStatus::Fail => { stats.failed = stats.failed + 1; },
                ComplianceStatus::Error => { stats.errors = stats.errors + 1; },
                ComplianceStatus::Unknown => { stats.unknown = stats.unknown + 1; },
            }
            stats.total_execution_time_ms = stats.total_execution_time_ms + ctn_results[i].execution_time_ms;
            i = i + 1;
        }
        proof {
            assert(ctn_results@.subrange(0, ctn_results@.len() as int) =~= ctn_results@);
        }
        stats
    }
}

impl ComplianceStatistics {
    /// No criterion failed and none had an error.
    pub fn is_compliant(&self) -> (res: bool)
        ensures
            res == (self.failed == 0 && self.errors == 0),
    {
        self.failed == 0 && self.errors == 0
    }
}


/// The severity of the finding a criterion outcome gives: a failure is high,
/// an error critical, an unknown outcome medium, a pass informational.
pub open spec fn spec_severity_of(status: ComplianceStatus) -> FindingSeverity {
    match status {
        ComplianceStatus::Pass => FindingSeverity::Info,
        ComplianceStatus::Fail => FindingSeverity::High,
        ComplianceStatus::Error => FindingSeverity::Critical,
        ComplianceStatus::Unknown => FindingSeverity::Medium,
    }
}

impl ResultGenerator {
    /// The severity of the finding a criterion outcome gives.
    pub fn map_status_to_severity(status: ComplianceStatus) -> (res: FindingSeverity)
        ensures
            res == spec_severity_of(status),
    {
        match status {
            ComplianceStatus::Pass => FindingSeverity::Info,
            ComplianceStatus::Fail => FindingSeverity::High,
            ComplianceStatus::Error => FindingSeverity::Critical,
            ComplianceStatus::Unknown => FindingSeverity::Medium,
        }
    }
}


/// The name of an outcome, as `Debug` prints it.
pub open spec fn status_debug(s: ComplianceStatus) -> Seq<char> {
    match s {
        ComplianceStatus::Pass => "Pass"@,
        ComplianceStatus::Fail => "Fail"@,
        ComplianceStatus::Error => "Error"@,
        ComplianceStatus::Unknown => "Unknown"@,
    }
}

/// The name and expected (or actual) value of each failed field check.
pub open spec fn failed_field_pairs(fs: Seq<FieldValidationResult>, expected: bool) -> Seq<(Seq<char>, Seq<char>)>
    decreases fs.len(),
{
    if fs.len() == 0 {
        Seq::empty()
    } else {
        failed_field_pairs(fs.drop_last(), expected) + if fs.last().passed {
            Seq::empty()
        } else {
            seq![(fs.last().field_name@, if expected { fs.last().expected_value@ } else { fs.last().actual_value@ })]
        }
    }
}

/// The failed field checks of every state check, one state after the other.
pub open spec fn failed_pairs(ss: Seq<StateValidationResult>, expected: bool) -> Seq<(Seq<char>, Seq<char>)>
    decreases ss.len(),
{
    if ss.len() == 0 {
        Seq::empty()
    } else {
        failed_pairs(ss.drop_last(), expected) + failed_field_pairs(ss.last().state_results@, expected)
    }
}

/// The position of the first member named `k`, or -1.
pub open spec fn key_pos(m: Seq<(Seq<char>, Seq<char>)>, k: Seq<char>) -> int
    decreases m.len(),
{
    if m.len() == 0 {
        -1
    } else if m[0].0 == k {
        0
    } else {
        let p = key_pos(m.drop_first(), k);
        if p < 0 { -1 } else { p + 1 }
    }
}

/// `m` with the member `k` set to `v`: in place when present, else appended.
pub open spec fn upsert(m: Seq<(Seq<char>, Seq<char>)>, k: Seq<char>, v: Seq<char>) -> Seq<(Seq<char>, Seq<char>)> {
    let p = key_pos(m, k);
    if p < 0 { m.push((k, v)) } else { m.update(p, (k, v)) }
}

/// The map the pairs build, one insertion after the other.
pub open spec fn build_map(pairs: Seq<(Seq<char>, Seq<char>)>) -> Seq<(Seq<char>, Seq<char>)>
    decreases pairs.len(),
{
    if pairs.len() == 0 {
        Seq::empty()
    } else {
        upsert(build_map(pairs.drop_last()), pairs.last().0, pairs.last().1)
    }
}

/// The expected values of a result's failed fields, by field name; a
/// compliant status when no field failed.
pub open spec fn expected_members(r: CtnResult) -> Seq<(Seq<char>, Seq<char>)> {
    let m = build_map(failed_pairs(r.execution_result.state_results@, true));
    if m.len() == 0 { seq![("status"@, "compliant"@)] } else { m }
}

/// The actual values of a result's failed fields, by field name; the
/// result's status when no field failed.
pub open spec fn actual_members(r: CtnResult) -> Seq<(Seq<char>, Seq<char>)> {
    if build_map(failed_pairs(r.execution_result.state_results@, true)).len() == 0 {
        seq![("status"@, status_debug(r.status))]
    } else {
        build_map(failed_pairs(r.execution_result.state_results@, false))
    }
}

/// `v` is the JSON object with the string members `m`, in order.
pub open spec fn is_string_object(v: JsonValue, m: Seq<(Seq<char>, Seq<char>)>) -> bool {
    &&& v matches JsonValue::Object(x)
    &&& x@.len() == m.len()
    &&& forall|i: int| 0 <= i < m.len() ==> (#[trigger] x@[i]).0@ == m[i].0 && json_str(x@[i].1) == Some(m[i].1)
}

/// `object_id.field_name` for each failed field check of `fs`.
pub open spec fn failed_field_paths(object_id: Seq<char>, fs: Seq<FieldValidationResult>) -> Seq<Seq<char>>
    decreases fs.len(),
{
    if fs.len() == 0 {
        Seq::empty()
    } else {
        failed_field_paths(object_id, fs.drop_last())
            + if fs.last().passed { Seq::empty() } else { seq![object_id + "."@ + fs.last().field_name@] }
    }
}

/// The paths of the failed fields of every state check.
pub open spec fn failed_paths(ss: Seq<StateValidationResult>) -> Seq<Seq<char>>
    decreases ss.len(),
{
    if ss.len() == 0 {
        Seq::empty()
    } else {
        failed_paths(ss.drop_last()) + failed_field_paths(ss.last().object_id@, ss.last().state_results@)
    }
}

/// The paths of a result's failed fields, separated by ", "; none when no field failed.
pub open spec fn field_path_of(r: CtnResult) -> Option<Seq<char>> {
    let p = failed_paths(r.execution_result.state_results@);
    if p.len() == 0 { None } else { Some(join_sep(p, ", "@)) }
}

/// Guidance for a result: for a failed state check, to correct the
/// configuration; for an error, to check permissions and resources.
pub open spec fn remediation_of(r: CtnResult) -> Option<Seq<char>> {
    if exists|i: int| 0 <= i < r.execution_result.state_results@.len()
        && !(#[trigger] r.execution_result.state_results@[i]).combined_result {
        Some("Review and correct the configuration values for "@ + r.criterion_type@
            + " to match the expected state. Refer to the control framework documentation for detailed remediation steps."@)
    } else if r.status == ComplianceStatus::Error {
        Some("An error occurred during validation. Check system permissions and resource availability."@)
    } else {
        None
    }
}

/// `f` is the finding for the result `r`.
pub open spec fn finding_for(f: ComplianceFinding, r: CtnResult) -> bool {
    &&& is_hyphenated_uuid(f.finding_id@)
    &&& f.severity == spec_severity_of(r.status)
    &&& f.title@ == r.criterion_type@ + " validation failed"@
    &&& f.description@ == r.execution_result.message@
    &&& is_string_object(f.expected, expected_members(r))
    &&& is_string_object(f.actual, actual_members(r))
    &&& match field_path_of(r) {
        Some(p) => f.field_path matches Some(x) && x@ == p,
        None => f.field_path is None,
    }
    &&& match remediation_of(r) {
        Some(t) => f.remediation matches Some(x) && x@ == t,
        None => f.remediation is None,
    }
}

/// The positions of the results that did not pass, in order.
pub open spec fn failing_positions(s: Seq<CtnResult>) -> Seq<int>
    decreases s.len(),
{
    if s.len() == 0 {
        Seq::empty()
    } else {
        failing_positions(s.drop_last()) + if s.last().status != ComplianceStatus::Pass { seq![s.len() - 1] } else { Seq::empty() }
    }
}

/// Every failing position lies within the results.
proof fn lemma_failing_positions_range(s: Seq<CtnResult>)
    ensures
        forall|k: int| 0 <= k < failing_positions(s).len() ==> 0 <= #[trigger] failing_positions(s)[k] < s.len(),
    decreases s.len(),
{
    if s.len() > 0 {
        lemma_failing_positions_range(s.drop_last());
        let p = failing_positions(s.drop_last());
        assert forall|k: int| 0 <= k < failing_positions(s).len() implies 0 <= #[trigger] failing_positions(s)[k] < s.len() by {
            if k < p.len() {
                assert(failing_positions(s)[k] == p[k]);
            }
        }
    }
}

/// The pairs of a list of string pairs.
pub open spec fn pair_views(v: Seq<(String, String)>) -> Seq<(Seq<char>, Seq<char>)> {
    v.map_values(|e: (String, String)| (e.0@, e.1@))
}

/// The first member of `m` named `k` is at `j` (or there is none, `j == m.len()`).
proof fn lemma_key_pos(m: Seq<(Seq<char>, Seq<char>)>, k: Seq<char>, j: int)
    requires
        0 <= j <= m.len(),
        forall|q: int| 0 <= q < j ==> m[q].0 != k,
        j < m.len() ==> m[j].0 == k,
    ensures
        key_pos(m, k) == if j < m.len() { j } else { -1 },
    decreases j,
{
    if j > 0 {
        lemma_key_pos(m.drop_first(), k, j - 1);
    }
}

/// Set the member `k` of `out` to `v`.
fn upsert_member(out: &mut Vec<(String, String)>, k: &String, v: &String)
    ensures
        pair_views(final(out)@) == upsert(pair_views(old(out)@), k@, v@),
{
    let ghost m = pair_views(out@);
    let mut j: usize = 0;
    while j < out.len()
        invariant
            j <= out@.len(),
            m == pair_views(out@),
            out@ == old(out)@,
            forall|q: int| 0 <= q < j ==> m[q].0 != k@,
        decreases out@.len() - j,
    {
        if str_eq(out[j].0.as_str(), k.as_str()) {
            proof {
                lemma_key_pos(m, k@, j as int);
            }
            let kc = k.clone();
            let vc = v.clone();
            out.set(j, (kc, vc));
            proof {
                assert(key_pos(m, k@) == j as int);
                assert(upsert(m, k@, v@) == m.update(j as int, (k@, v@)));
                assert(pair_views(out@) =~= m.update(j as int, (k@, v@)));
            }
            return;
        }
        j = j + 1;
    }
    proof {
        lemma_key_pos(m, k@, j as int);
    }
    out.push((k.clone(), v.clone()));
    proof {
        assert(pair_views(out@) =~= m.push((k@, v@)));
    }
}

/// The JSON object with the string members `pairs`.
fn string_object(pairs: &Vec<(String, String)>) -> (res: JsonValue)
    ensures
        is_string_object(res, pair_views(pairs@)),
{
    let mut out: Vec<(String, JsonValue)> = Vec::new();
    let mut i: usize = 0;
    while i < pairs.len()
        invariant
            i <= pairs@.len(),
            out@.len() == i,
            forall|q: int| 0 <= q < i ==> (#[trigger] out@[q]).0@ == pairs@[q].0@ && json_str(out@[q].1) == Some(pairs@[q].1@),
        decreases pairs@.len() - i,
    {
        out.push((pairs[i].0.clone(), JsonValue::String(pairs[i].1.clone())));
        i = i + 1;
    }
    JsonValue::Object(out)
}

impl ResultGenerator {
    /// The expected and actual values of a result's failed fields, by field
    /// name; when no field failed, a compliant status against the result's status.
    fn extract_expected_and_actual(ctn_result: &CtnResult) -> (res: (JsonValue, JsonValue))
        ensures
            is_string_object(res.0, expected_members(*ctn_result)),
            is_string_object(res.1, actual_members(*ctn_result)),
    {
        let ss = &ctn_result.execution_result.state_results;
        let mut expected_map: Vec<(String, String)> = Vec::new();
        let mut actual_map: Vec<(String, String)> = Vec::new();
        let mut i: usize = 0;
        proof {
            assert(ss@.subrange(0, 0) =~= Seq::<StateValidationResult>::empty());
            assert(pair_views(expected_map@) =~= Seq::<(Seq<char>, Seq<char>)>::empty());
            assert(pair_views(actual_map@) =~= Seq::<(Seq<char>, Seq<char>)>::empty());
        }
        while i < ss.len()
            invariant
                i <= ss@.len(),
                pair_views(expected_map@) == build_map(failed_pairs(ss@.subrange(0, i as int), true)),
                pair_views(actual_map@) == build_map(failed_pairs(ss@.subrange(0, i as int), false)),
            decreases ss@.len() - i,
        {
            let fs = &ss[i].state_results;
            let ghost base_e = failed_pairs(ss@.subrange(0, i as int), true);
            let ghost base_a = failed_pairs(ss@.subrange(0, i as int), false);
            proof {
                assert(ss@.subrange(0, i + 1).drop_last() =~= ss@.subrange(0, i as int));
                assert(fs@.subrange(0, 0) =~= Seq::<FieldValidationResult>::empty());
                assert(base_e + failed_field_pairs(fs@.subrange(0, 0), true) =~= base_e);
                assert(base_a + failed_field_pairs(fs@.subrange(0, 0), false) =~= base_a);
            }
            let mut j: usize = 0;
            while j < fs.len()
                invariant
                    j <= fs@.len(),
                    pair_views(expected_map@) == build_map(base_e + failed_field_pairs(fs@.subrange(0, j as int), true)),
                    pair_views(actual_map@) == build_map(base_a + failed_field_pairs(fs@.subrange(0, j as int), false)),
                decreases fs@.len() - j,
            {
                let fr = &fs[j];
                let ghost pe = base_e + failed_field_pairs(fs@.subrange(0, j as int), true);
                let ghost pa = base_a + failed_field_pairs(fs@.subrange(0, j as int), false);
                proof {
                    assert(fs@.subrange(0, j + 1).drop_last() =~= fs@.subrange(0, j as int));
                    assert(fs@.subrange(0, j + 1).last() == *fr);
                }
                if !fr.passed {
                    upsert_member(&mut expected_map, &fr.field_name, &fr.expected_value);
                    upsert_member(&mut actual_map, &fr.field_name, &fr.actual_value);
                    proof {
                        let ne = pe.push((fr.field_name@, fr.expected_value@));
                        let na = pa.push((fr.field_name@, fr.actual_value@));
                        assert(base_e + failed_field_pairs(fs@.subrange(0, j + 1), true) =~= ne);
                        assert(base_a + failed_field_pairs(fs@.subrange(0, j + 1), false) =~= na);
                        assert(ne.drop_last() =~= pe);
                        assert(na.drop_last() =~= pa);
                    }
                } else {
                    proof {
                        assert(base_e + failed_field_pairs(fs@.subrange(0, j + 1), true) =~= pe);
                        assert(base_a + failed_field_pairs(fs@.subrange(0, j + 1), false) =~= pa);
                    }
                }
                j = j + 1;
            }
            proof {
                assert(fs@.subrange(0, fs@.len() as int) =~= fs@);
            }
            i = i + 1;
        }
        proof {
            assert(ss@.subrange(0, ss@.len() as int) =~= ss@);
        }
        if expected_map.len() == 0 {
            let mut e: Vec<(String, String)> = Vec::new();
            e.push((String::from_str("status"), String::from_str("compliant")));
            let mut a: Vec<(String, String)> = Vec::new();
            a.push((String::from_str("status"), status_name(ctn_result.status)));
            proof {
                assert(pair_views(e@) =~= seq![("status"@, "compliant"@)]);
                assert(pair_views(a@) =~= seq![("status"@, status_debug(ctn_result.status))]);
            }
            (string_object(&e), string_object(&a))
        } else {
            (string_object(&expected_map), string_object(&actual_map))
        }
    }

    /// The paths `object_id.field_name` of a result's failed fields,
    /// separated by ", "; none when no field failed.
    fn construct_field_path(ctn_result: &CtnResult) -> (res: Option<String>)
        ensures
            match field_path_of(*ctn_result) {
                Some(p) => res matches Some(x) && x@ == p,
                None => res is None,
            },
    {
        let ss = &ctn_result.execution_result.state_results;
        let mut paths: Vec<String> = Vec::new();
        let mut i: usize = 0;
        proof {
            assert(ss@.subrange(0, 0) =~= Seq::<StateValidationResult>::empty());
            assert(paths@.map_values(|p: String| p@) =~= Seq::<Seq<char>>::empty());
        }
        while i < ss.len()
            invariant
                i <= ss@.len(),
                paths@.map_values(|p: String| p@) == failed_paths(ss@.subrange(0, i as int)),
            decreases ss@.len() - i,
        {
            let sr = &ss[i];
            let fs = &sr.state_results;
            let ghost base = failed_paths(ss@.subrange(0, i as int));
            proof {
                assert(ss@.subrange(0, i + 1).drop_last() =~= ss@.subrange(0, i as int));
                assert(fs@.subrange(0, 0) =~= Seq::<FieldValidationResult>::empty());
                assert(base + failed_field_paths(sr.object_id@, fs@.subrange(0, 0)) =~= base);
            }
            let mut j: usize = 0;
            while j < fs.len()
                invariant
                    j <= fs@.len(),
                    paths@.map_values(|p: String| p@) == base + failed_field_paths(sr.object_id@, fs@.subrange(0, j as int)),
                decreases fs@.len() - j,
            {
                let ghost before = paths@.map_values(|p: String| p@);
                proof {
                    assert(fs@.subrange(0, j + 1).drop_last() =~= fs@.subrange(0, j as int));
                }
                if !fs[j].passed {
                    let p = concat3(sr.object_id.as_str(), ".", fs[j].field_name.as_str());
                    paths.push(p);
                    proof {
                        assert(paths@.map_values(|p: String| p@) =~= before.push(sr.object_id@ + "."@ + fs@[j as int].field_name@));
                        assert(base + failed_field_paths(sr.object_id@, fs@.subrange(0, j + 1))
                            =~= before.push(sr.object_id@ + "."@ + fs@[j as int].field_name@));
                    }
                } else {
                    proof {
                        assert(base + failed_field_paths(sr.object_id@, fs@.subrange(0, j + 1)) =~= before);
                    }
                }
                j = j + 1;
            }
            proof {
                assert(fs@.subrange(0, fs@.len() as int) =~= fs@);
            }
            i = i + 1;
        }
        proof {
            assert(ss@.subrange(0, ss@.len() as int) =~= ss@);
        }
        if paths.len() == 0 {
            None
        } else {
            Some(join_strings(&paths, ", "))
        }
    }

    /// Guidance for a result: for a failed state check, to correct the
    /// configuration; for an error, to check permissions and resources.
    fn generate_remediation(ctn_result: &CtnResult) -> (res: Option<String>)
        ensures
            match remediation_of(*ctn_result) {
                Some(t) => res matches Some(x) && x@ == t,
                None => res is None,
            },
    {
        let ss = &ctn_result.execution_result.state_results;
        let mut i: usize = 0;
        let mut has_state_failures = false;
        while i < ss.len()
            invariant
                i <= ss@.len(),
                has_state_failures == exists|q: int| 0 <= q < i && !(#[trigger] ss@[q]).combined_result,
            decreases ss@.len() - i,
        {
            if !ss[i].combined_result {
                has_state_failures = true;
            }
            i = i + 1;
        }
        if has_state_failures {
            let mut r = concat2("Review and correct the configuration values for ", ctn_result.criterion_type.as_str());
            r.append(" to match the expected state. Refer to the control framework documentation for detailed remediation steps.");
            Some(r)
        } else if ctn_result.status == ComplianceStatus::Error {
            Some(String::from_str("An error occurred during validation. Check system permissions and resource availability."))
        } else {
            None
        }
    }

    /// The finding for a result that did not pass.
    fn ctn_result_to_finding(ctn_result: &CtnResult) -> (res: Result<ComplianceFinding, ResultGenerationError>)
        ensures
            res matches Ok(f) && finding_for(f, *ctn_result),
    {
        let severity = Self::map_status_to_severity(ctn_result.status);
        let description = ctn_result.execution_result.message.clone();
        let (expected, actual) = Self::extract_expected_and_actual(ctn_result);
        let title = concat2(ctn_result.criterion_type.as_str(), " validation failed");
        let mut finding = ComplianceFinding::auto_id(severity, title, description, expected, actual);
        if let Some(path) = Self::construct_field_path(ctn_result) {
            finding = finding.with_field_path(path);
        }
        if let Some(remediation) = Self::generate_remediation(ctn_result) {
            finding = finding.with_remediation(remediation);
        }
        Ok(finding)
    }

    /// The findings for the results that did not pass, in order. The
    /// caller adds them to its scan result.
    pub fn generate_findings(ctn_results: &Vec<CtnResult>) -> (res: Result<Vec<ComplianceFinding>, ResultGenerationError>)
        ensures
            res matches Ok(v) && v@.len() == failing_positions(ctn_results@).len()
                && forall|k: int| 0 <= k < v@.len()
                    ==> finding_for(#[trigger] v@[k], ctn_results@[failing_positions(ctn_results@)[k]]),
    {
        let mut out: Vec<ComplianceFinding> = Vec::new();
        let mut i: usize = 0;
        while i < ctn_results.len()
            invariant
                i <= ctn_results@.len(),
                out@.len() == failing_positions(ctn_results@.subrange(0, i as int)).len(),
                forall|k: int| 0 <= k < out@.len() ==> 0 <= failing_positions(ctn_results@.subrange(0, i as int))[k] < i
                    && finding_for(#[trigger] out@[k],
                        ctn_results@[failing_positions(ctn_results@.subrange(0, i as int))[k]]),
            decreases ctn_results@.len() - i,
        {
            let ghost pre = failing_positions(ctn_results@.subrange(0, i as int));
            proof {
                assert(ctn_results@.subrange(0, i + 1).drop_last() =~= ctn_results@.subrange(0, i as int));
                assert(ctn_results@.subrange(0, i + 1).last() == ctn_results@[i as int]);
            }
            if ctn_results[i].status != ComplianceStatus::Pass {
                let f = match Self::ctn_result_to_finding(&ctn_results[i]) {
                    Ok(f) => f,
                    Err(e) => {
                        return Err(e);
                    },
                };
                let ghost ob = out@;
                out.push(f);
                proof {
                    let np = failing_positions(ctn_results@.subrange(0, i + 1));
                    assert(np =~= pre.push(i as int));
                    assert forall|k: int| 0 <= k < out@.len() implies 0 <= np[k] < i + 1
                        && finding_for(#[trigger] out@[k], ctn_results@[np[k]]) by {
                        if k < ob.len() {
                            let t = ob[k];
                            assert(finding_for(t, ctn_results@[pre[k]]));
                            assert(0 <= pre[k] < i);
                            assert(out@[k] == ob[k]);
                            assert(np[k] == pre[k]);
                        } else {
                            assert(np[k] == i);
                        }
                    }
                }
            } else {
                proof {
                    let np = failing_positions(ctn_results@.subrange(0, i + 1));
                    assert(np =~= pre);
                    assert forall|k: int| 0 <= k < out@.len() implies 0 <= np[k] < i + 1
                        && finding_for(#[trigger] out@[k], ctn_results@[np[k]]) by {
                        let t = out@[k];
                        assert(finding_for(t, ctn_results@[pre[k]]));
                        assert(0 <= pre[k] < i);
                        assert(np[k] == pre[k]);
                    }
                }
            }
            proof {
                let np = failing_positions(ctn_results@.subrange(0, i + 1));
                lemma_failing_positions_range(ctn_results@.subrange(0, i + 1));
                assert(out@.len() == np.len());
                assert(forall|k: int| 0 <= k < out@.len() ==> 0 <= np[k] < i + 1
                    && finding_for(#[trigger] out@[k], ctn_results@[np[k]]));
            }
            i = i + 1;
        }
        proof {
            assert(ctn_results@.subrange(0, ctn_results@.len() as int) =~= ctn_results@);
        }
        Ok(out)
    }
}

/// The name of an outcome, as `Debug` prints it.
fn status_name(s: ComplianceStatus) -> (res: String)
    ensures
        res@ == status_debug(s),
{
    match s {
        ComplianceStatus::Pass => String::from_str("Pass"),
        ComplianceStatus::Fail => String::from_str("Fail"),
        ComplianceStatus::Error => String::from_str("Error"),
        ComplianceStatus::Unknown => String::from_str("Unknown"),
    }
}

} // verus!
