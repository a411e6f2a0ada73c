use esp_scanner_base::json::JsonValue;
use esp_scanner_base::results::generator::ResultGenerator;
use esp_scanner_base::results::types::{
    contains_substring, findings_by_severity, overall_status, privilege_level, ComplianceFinding, ComplianceStatus,
    FindingSeverity,
};
use esp_scanner_base::strategies::ComplianceStatus as CriterionStatus;

fn finding(id: &str, severity: FindingSeverity) -> ComplianceFinding {
    ComplianceFinding::new(id.to_string(), severity, "t".to_string(), "d".to_string(), JsonValue::Null, JsonValue::Null)
}

#[test]
fn overall_status_follows_the_counts() {
    assert_eq!(overall_status(0, 0), (ComplianceStatus::Compliant, true));
    assert_eq!(overall_status(2, 0), (ComplianceStatus::NonCompliant, false));
    assert_eq!(overall_status(0, 1), (ComplianceStatus::Partial, false));
    assert_eq!(overall_status(3, 1), (ComplianceStatus::Partial, false));
}

#[test]
fn critical_and_high_findings_fail_their_criterion() {
    assert!(FindingSeverity::Critical.fails_criterion());
    assert!(FindingSeverity::High.fails_criterion());
    assert!(!FindingSeverity::Medium.fails_criterion());
    assert!(!FindingSeverity::Low.fails_criterion());
    assert!(!FindingSeverity::Info.fails_criterion());
}

#[test]
fn findings_are_selected_by_severity_in_order() {
    let fs = vec![
        finding("a", FindingSeverity::High),
        finding("b", FindingSeverity::Low),
        finding("c", FindingSeverity::High),
    ];
    let high = findings_by_severity(&fs, FindingSeverity::High);
    assert_eq!(high.len(), 2);
    assert_eq!(high[0].finding_id, "a");
    assert_eq!(high[1].finding_id, "c");
    assert!(findings_by_severity(&fs, FindingSeverity::Critical).is_empty());
}

#[test]
fn builders_set_remediation_and_field_path() {
    let f = finding("x", FindingSeverity::Medium)
        .with_remediation("fix it".to_string())
        .with_field_path("obj.field".to_string());
    assert_eq!(f.remediation.as_deref(), Some("fix it"));
    assert_eq!(f.field_path.as_deref(), Some("obj.field"));
}

#[test]
fn auto_ids_are_fresh() {
    let a = ComplianceFinding::auto_id(FindingSeverity::Info, "t".to_string(), "d".to_string(), JsonValue::Null, JsonValue::Null);
    let b = ComplianceFinding::auto_id(FindingSeverity::Info, "t".to_string(), "d".to_string(), JsonValue::Null, JsonValue::Null);
    assert_eq!(a.finding_id.len(), 36);
    assert_ne!(a.finding_id, b.finding_id);
    assert!(a.remediation.is_none());
}

#[test]
fn substring_search() {
    assert!(contains_substring("Administrator", "Admin"));
    assert!(contains_substring("abc", ""));
    assert!(!contains_substring("ab", "abc"));
    assert!(!contains_substring("abcd", "ce"));
    assert!(contains_substring("xxadminxx", "admin"));
}

#[test]
fn privilege_levels() {
    assert_eq!(privilege_level("root", false, None, ""), "root");
    assert_eq!(privilege_level("alice", true, Some("0"), ""), "root");
    assert_eq!(privilege_level("alice", true, Some("1000"), ""), "user");
    assert_eq!(privilege_level("alice", true, None, ""), "user");
    assert_eq!(privilege_level("SysAdmin", false, None, ""), "admin");
    assert_eq!(privilege_level("bob", false, None, "C:\\Users\\Administrator"), "admin");
    assert_eq!(privilege_level("bob", false, None, "C:\\Users\\bob"), "user");
}

#[test]
fn outcomes_map_to_severities() {
    assert_eq!(ResultGenerator::map_status_to_severity(CriterionStatus::Pass), FindingSeverity::Info);
    assert_eq!(ResultGenerator::map_status_to_severity(CriterionStatus::Fail), FindingSeverity::High);
    assert_eq!(ResultGenerator::map_status_to_severity(CriterionStatus::Error), FindingSeverity::Critical);
    assert_eq!(ResultGenerator::map_status_to_severity(CriterionStatus::Unknown), FindingSeverity::Medium);
}
