//! Scan result types: the ICS metadata reported with a scan, the host and
//! user context, and the status and severity scales.

use vstd::prelude::*;
use crate::strings::to_owned_string;
use crate::types::metadata::MetaDataBlock;
use crate::json::JsonValue;
use crate::parser::metadata::{lowercase, lowercase_str};

verus! {

/// The fields of the META block that scan output reports.
#[derive(Debug)]
pub struct IcsMetadata {
    /// Unique identifier of the scan definition.
    pub ics_scan_id: String,
    /// Control framework validated (e.g. "NIST", "CIS").
    pub control_framework: String,
    /// Control identifier (e.g. "AC-2").
    pub control: String,
    /// Target platform.
    pub platform: String,
    /// Criticality level (low, medium, high, critical).
    pub criticality: String,
    /// Tags for categorisation.
    pub tags: String,
}

/// The report fields, in the order they are read from the META block.
pub open spec fn ics_fields() -> Seq<Seq<char>> {
    seq!["ics_scan_id"@, "control_framework"@, "control"@, "platform"@, "criticality"@, "tags"@]
}

/// The first report field that the META block lacks, if any.
pub open spec fn first_missing_ics_field(m: MetaDataBlock) -> Option<Seq<char>> {
    if !m.fields.has("ics_scan_id"@) {
        Some("ics_scan_id"@)
    } else if !m.fields.has("control_framework"@) {
        Some("control_framework"@)
    } else if !m.fields.has("control"@) {
        Some("control"@)
    } else if !m.fields.has("platform"@) {
        Some("platform"@)
    } else if !m.fields.has("criticality"@) {
        Some("criticality"@)
    } else if !m.fields.has("tags"@) {
        Some("tags"@)
    } else {
        None
    }
}

/// The value of a field of the META block, or the message naming it as missing.
fn required_field(metadata: &MetaDataBlock, name: &str) -> (res: Result<String, String>)
    requires
        metadata.fields.wf(),
    ensures
        metadata.fields.has(name@) ==> (res matches Ok(v) && v@ == metadata.fields.at(name@)@),
        !metadata.fields.has(name@) ==> (res matches Err(m) && m@ == "Missing "@ + name@),
{
    match metadata.fields.get(name) {
        Some(v) => Ok(v.clone()),
        None => Err(crate::strings::concat2("Missing ", name)),
    }
}

impl IcsMetadata {
    /// The report fields read from a META block; the error names the first
    /// field that is missing.
    pub fn from_metadata_block(metadata: &MetaDataBlock) -> (res: Result<IcsMetadata, String>)
        requires
            metadata.fields.wf(),
        ensures
            match first_missing_ics_field(*metadata) {
                Some(f) => res matches Err(m) && m@ == "Missing "@ + f,
                None => res matches Ok(r)
                    && r.ics_scan_id@ == metadata.fields.at("ics_scan_id"@)@
                    && r.control_framework@ == metadata.fields.at("control_framework"@)@
                    && r.control@ == metadata.fields.at("control"@)@
                    && r.platform@ == metadata.fields.at("platform"@)@
                    && r.criticality@ == metadata.fields.at("criticality"@)@
                    && r.tags@ == metadata.fields.at("tags"@)@,
            },
    {
        let ics_scan_id = match required_field(metadata, "ics_scan_id") { Ok(v) => v, Err(e) => { return Err(e); } };
        let control_framework = match required_field(metadata, "control_framework") { Ok(v) => v, Err(e) => { return Err(e); } };
        let control = match required_field(metadata, "control") { Ok(v) => v, Err(e) => { return Err(e); } };
        let platform = match required_field(metadata, "platform") { Ok(v) => v, Err(e) => { return Err(e); } };
        let criticality = match required_field(metadata, "criticality") { Ok(v) => v, Err(e) => { return Err(e); } };
        let tags = match required_field(metadata, "tags") { Ok(v) => v, Err(e) => { return Err(e); } };
        Ok(IcsMetadata { ics_scan_id, control_framework, control, platform, criticality, tags })
    }

    /// Fixed metadata for tests.
    pub fn default_test() -> (res: IcsMetadata)
        ensures
            res.ics_scan_id@ == "test-scan-001"@,
            res.control_framework@ == "TEST"@,
            res.control@ == "TEST-1"@,
            res.platform@ == "Test"@,
            res.criticality@ == "medium"@,
            res.tags@ == "test"@,
    {
        IcsMetadata {
            ics_scan_id: to_owned_string("test-scan-001"),
            control_framework: to_owned_string("TEST"),
            control: to_owned_string("TEST-1"),
            platform: to_owned_string("Test"),
            criticality: to_owned_string("medium"),
            tags: to_owned_string("test"),
        }
    }
}

/// Where the scan ran.
#[derive(Debug)]
pub struct HostContext {
    /// Host name.
    pub hostname: String,
    /// Operating system information.
    pub os_info: String,
    /// IP address of the scanning host.
    pub ip_address: Option<String>,
    /// Asset identifier for correlation.
    pub asset_id: Option<String>,
}

impl HostContext {
    /// A host context without IP address or asset id.
    pub fn new(hostname: String, os_info: String) -> (res: HostContext)
        ensures
            res == (HostContext { hostname, os_info, ip_address: None, asset_id: None }),
    {
        HostContext { hostname, os_info, ip_address: None, asset_id: None }
    }

    /// The same context with the IP address set.
    pub fn with_ip_address(self, ip: String) -> (res: HostContext)
        ensures
            res == (HostContext { ip_address: Some(ip), ..self }),
    {
        let mut s = self;
        s.ip_address = Some(ip);
        s
    }

    /// The same context with the asset id set.
    pub fn with_asset_id(self, asset_id: String) -> (res: HostContext)
        ensures
            res == (HostContext { asset_id: Some(asset_id), ..self }),
    {
        let mut s = self;
        s.asset_id = Some(asset_id);
        s
    }
}

/// Who ran the scan.
#[derive(Debug)]
pub struct UserContext {
    /// User account.
    pub username: String,
    /// Privilege level.
    pub privilege_level: String,
    /// Process information.
    pub process_info: Option<String>,
}

impl UserContext {
    /// A user context without process information.
    pub fn new(username: String, privilege_level: String) -> (res: UserContext)
        ensures
            res == (UserContext { username, privilege_level, process_info: None }),
    {
        UserContext { username, privilege_level, process_info: None }
    }

    /// The same context with the process information set.
    pub fn with_process_info(self, process_info: String) -> (res: UserContext)
        ensures
            res == (UserContext { process_info: Some(process_info), ..self }),
    {
        let mut s = self;
        s.process_info = Some(process_info);
        s
    }
}

/// Overall compliance of a scan.
#[derive(Debug, Clone, Copy, PartialEq, Eq, Structural)]
pub enum ComplianceStatus {
    /// Every criterion passed.
    Compliant,
    /// Some criterion failed.
    NonCompliant,
    /// The scan completed with execution errors.
    Partial,
    /// The scan did not execute properly.
    Error,
}

/// Severity of a compliance finding.
#[derive(Debug, Clone, Copy, PartialEq, Eq, Structural)]
pub enum FindingSeverity {
    Critical,
    High,
    Medium,
    Low,
    Info,
}


/// The overall status of a scan from its criteria counts: errors make it
/// partial, otherwise it is compliant exactly when nothing failed.
pub open spec fn spec_overall_status(failed: u32, errors: u32) -> ComplianceStatus {
    if errors > 0 {
        ComplianceStatus::Partial
    } else if failed == 0 {
        ComplianceStatus::Compliant
    } else {
        ComplianceStatus::NonCompliant
    }
}

/// The overall status of a finished scan, and whether it passed: a scan
/// passes exactly when it is compliant.
pub fn overall_status(failed_criteria: u32, error_criteria: u32) -> (res: (ComplianceStatus, bool))
    ensures
        res.0 == spec_overall_status(failed_criteria, error_criteria),
        res.1 == (res.0 == ComplianceStatus::Compliant),
{
    let status = if error_criteria > 0 {
        ComplianceStatus::Partial
    } else if failed_criteria == 0 {
        ComplianceStatus::Compliant
    } else {
        ComplianceStatus::NonCompliant
    };
    let passed = match status {
        ComplianceStatus::Compliant => true,
        _ => false,
    };
    (status, passed)
}

/// A finding of this severity fails its criterion: critical and high ones do.
pub open spec fn spec_fails_criterion(s: FindingSeverity) -> bool {
    s == FindingSeverity::Critical || s == FindingSeverity::High
}

impl FindingSeverity {
    /// Whether a finding of this severity fails its criterion.
    pub fn fails_criterion(&self) -> (res: bool)
        ensures
            res == spec_fails_criterion(*self),
    {
        match self {
            FindingSeverity::Critical | FindingSeverity::High => true,
            _ => false,
        }
    }
}

/// A compliance violation or issue found by a scan.
#[derive(Debug)]
pub struct ComplianceFinding {
    pub finding_id: String,
    pub severity: FindingSeverity,
    pub title: String,
    pub description: String,
    pub expected: JsonValue,
    pub actual: JsonValue,
    pub remediation: Option<String>,
    pub field_path: Option<String>,
}

/// A lower-case hexadecimal digit.
pub open spec fn is_lower_hex_char(c: char) -> bool {
    ('0' <= c && c <= '9') || ('a' <= c && c <= 'f')
}

/// `s` has the hyphenated UUID form: 36 characters, hyphens at positions 8,
/// 13, 18 and 23, lower-case hexadecimal digits elsewhere.
pub open spec fn is_hyphenated_uuid(s: Seq<char>) -> bool {
    &&& s.len() == 36
    &&& forall|i: int| 0 <= i < 36 ==> if i == 8 || i == 13 || i == 18 || i == 23 {
        #[trigger] s[i] == '-'
    } else {
        is_lower_hex_char(s[i])
    }
}

/// `uuid::Uuid::new_v4().to_string()`: a fresh random identifier. The uuid
/// crate writes it in the lower-case hyphenated form; which digits it holds
/// rests on chance and is not stated.
#[verifier::external_body]
fn new_finding_id() -> (res: String)
    ensures
        is_hyphenated_uuid(res@),
{
    uuid::Uuid::new_v4().to_string()
}

impl ComplianceFinding {
    /// A finding with the given identifier, without remediation or field path.
    pub fn new(finding_id: String, severity: FindingSeverity, title: String, description: String,
        expected: JsonValue, actual: JsonValue) -> (res: ComplianceFinding)
        ensures
            res == (ComplianceFinding {
                finding_id,
                severity,
                title,
                description,
                expected,
                actual,
                remediation: None,
                field_path: None,
            }),
    {
        ComplianceFinding { finding_id, severity, title, description, expected, actual, remediation: None, field_path: None }
    }

    /// The finding with remediation guidance.
    pub fn with_remediation(self, remediation: String) -> (res: ComplianceFinding)
        ensures
            res == (ComplianceFinding { remediation: Some(remediation), ..self }),
    {
        let mut f = self;
        f.remediation = Some(remediation);
        f
    }

    /// The finding with the path of the field that failed.
    pub fn with_field_path(self, field_path: String) -> (res: ComplianceFinding)
        ensures
            res == (ComplianceFinding { field_path: Some(field_path), ..self }),
    {
        let mut f = self;
        f.field_path = Some(field_path);
        f
    }

    /// A finding with a fresh random identifier.
    pub fn auto_id(severity: FindingSeverity, title: String, description: String, expected: JsonValue,
        actual: JsonValue) -> (res: ComplianceFinding)
        ensures
            res.severity == severity,
            res.title == title,
            res.description == description,
            res.expected == expected,
            res.actual == actual,
            res.remediation is None,
            res.field_path is None,
            is_hyphenated_uuid(res.finding_id@),
    {
        let finding_id = new_finding_id();
        ComplianceFinding::new(finding_id, severity, title, description, expected, actual)
    }
}

/// The positions of the findings of the given severity, in order.
pub open spec fn severity_positions(s: Seq<ComplianceFinding>, severity: FindingSeverity) -> Seq<int>
    decreases s.len(),
{
    if s.len() == 0 {
        Seq::empty()
    } else {
        severity_positions(s.drop_last(), severity)
            + if s.last().severity == severity { seq![s.len() - 1] } else { Seq::empty() }
    }
}

/// The findings of the given severity, in order.
pub fn findings_by_severity(findings: &Vec<ComplianceFinding>, severity: FindingSeverity) -> (res: Vec<&ComplianceFinding>)
    ensures
        res@.len() == severity_positions(findings@, severity).len(),
        forall|k: int| 0 <= k < res@.len() ==> *res@[k] == findings@[#[trigger] severity_positions(findings@, severity)[k]],
{
    let mut out: Vec<&ComplianceFinding> = Vec::new();
    let mut i: usize = 0;
    while i < findings.len()
        invariant
            i <= findings@.len(),
            out@.len() == severity_positions(findings@.subrange(0, i as int), severity).len(),
            forall|k: int| 0 <= k < out@.len() ==> *out@[k]
                == findings@[#[trigger] severity_positions(findings@.subrange(0, i as int), severity)[k]],
            forall|k: int| 0 <= k < out@.len() ==> 0 <= #[trigger] severity_positions(findings@.subrange(0, i as int), severity)[k] < i,
        decreases findings@.len() - i,
    {
        let ghost sub = findings@.subrange(0, i + 1);
        let ghost pre = severity_positions(findings@.subrange(0, i as int), severity);
        proof {
            assert(sub.drop_last() =~= findings@.subrange(0, i as int));
            assert(sub.last() == findings@[i as int]);
        }
        if findings[i].severity == severity {
            out.push(&findings[i]);
            proof {
                assert(severity_positions(sub, severity) == pre.push(i as int));
                assert forall|k: int| 0 <= k < out@.len() implies *out@[k]
                    == findings@[#[trigger] severity_positions(sub, severity)[k]] by {
                    if k < pre.len() {
                        assert(severity_positions(sub, severity)[k] == pre[k]);
                    }
                }
                assert forall|k: int| 0 <= k < out@.len() implies 0 <= #[trigger] severity_positions(sub, severity)[k] < i + 1 by {
                    if k < pre.len() {
                        assert(severity_positions(sub, severity)[k] == pre[k]);
                    }
                }
            }
        } else {
            proof {
                assert(severity_positions(sub, severity) =~= pre);
            }
        }
        i = i + 1;
    }
    proof {
        assert(findings@.subrange(0, findings@.len() as int) =~= findings@);
    }
    out
}


/// `n` occurs in `h` at position `i`.
pub open spec fn occurs_at(h: Seq<char>, n: Seq<char>, i: int) -> bool {
    0 <= i && i + n.len() <= h.len() && h.subrange(i, i + n.len()) == n
}

/// `n` occurs somewhere in `h`.
pub open spec fn has_substring(h: Seq<char>, n: Seq<char>) -> bool {
    exists|i: int| #[trigger] occurs_at(h, n, i)
}

/// Whether `n` occurs in `h`.
pub fn contains_substring(h: &str, n: &str) -> (res: bool)
    ensures
        res == has_substring(h@, n@),
{
    let hl = h.unicode_len();
    let nl = n.unicode_len();
    if nl > hl {
        proof {
            assert forall|i: int| !#[trigger] occurs_at(h@, n@, i) by {}
        }
        return false;
    }
    if nl == 0 {
        proof {
            assert(h@.subrange(0, 0) =~= n@);
            assert(occurs_at(h@, n@, 0));
        }
        return true;
    }
    let mut i: usize = 0;
    while i <= hl - nl
        invariant
            nl >= 1,
            hl == h@.len(),
            nl == n@.len(),
            nl <= hl,
            i <= hl - nl + 1,
            forall|k: int| 0 <= k < i ==> !#[trigger] occurs_at(h@, n@, k),
        decreases hl - nl + 1 - i,
    {
        let mut j: usize = 0;
        let mut same = true;
        while j < nl
            invariant
                hl == h@.len(),
                nl == n@.len(),
                i + nl <= hl,
                j <= nl,
                same ==> forall|q: int| 0 <= q < j ==> h@[i + q] == n@[q],
                !same ==> !occurs_at(h@, n@, i as int),
            decreases nl - j,
        {
            if same && h.get_char(i + j) != n.get_char(j) {
                proof {
                    if occurs_at(h@, n@, i as int) {
                        assert(h@.subrange(i as int, i + nl)[j as int] == h@[i + j]);
                    }
                }
                same = false;
            }
            j = j + 1;
        }
        if same {
            proof {
                assert(h@.subrange(i as int, i + nl) =~= n@);
                assert(occurs_at(h@, n@, i as int));
            }
            return true;
        }
        i = i + 1;
    }
    proof {
        assert forall|k: int| !#[trigger] occurs_at(h@, n@, k) by {
            if 0 <= k && k + nl <= hl {
                assert(k < i);
            }
        }
    }
    false
}

/// The privilege level of the account a scan runs under: `root` for the
/// root user; on Unix `root` when the user id is 0 and `user` otherwise;
/// elsewhere `admin` for an account whose name holds "admin" in any case or
/// whose profile path holds "Administrator", and `user` otherwise.
pub open spec fn spec_privilege_level(username: Seq<char>, unix: bool, uid: Option<Seq<char>>, profile: Seq<char>) -> Seq<char> {
    if username == "root"@ {
        "root"@
    } else if unix {
        if uid == Some("0"@) { "root"@ } else { "user"@ }
    } else if has_substring(lowercase(username), "admin"@) || has_substring(profile, "Administrator"@) {
        "admin"@
    } else {
        "user"@
    }
}

/// The privilege level of the account a scan runs under, from its name, the
/// platform, its user id (`UID`, else `EUID`, if set) and its profile path.
pub fn privilege_level(username: &str, unix: bool, uid: Option<&str>, user_profile: &str) -> (res: String)
    ensures
        res@ == spec_privilege_level(username@, unix, match uid { Some(u) => Some(u@), None => None }, user_profile@),
{
    if crate::strings::str_eq(username, "root") {
        return to_owned_string("root");
    }
    if unix {
        return match uid {
            Some(u) => if crate::strings::str_eq(u, "0") { to_owned_string("root") } else { to_owned_string("user") },
            None => to_owned_string("user"),
        };
    }
    let lower = lowercase_str(username);
    if contains_substring(lower.as_str(), "admin") || contains_substring(user_profile, "Administrator") {
        to_owned_string("admin")
    } else {
        to_owned_string("user")
    }
}

} // verus!
