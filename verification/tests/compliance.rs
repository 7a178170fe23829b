use reconcile::compliance::{
    process_compliance, AccessMatrix, AccessRule, ComplianceStatus, ExceptionRecord, JoinedAccess,
    StatusCount, UserAccess, Violation,
};
use reconcile::pair_set::PairSet;
use reconcile::rule_chain::Rule;

fn access(user_id: &str, role: &str, system: &str) -> UserAccess {
    UserAccess { user_id: user_id.to_string(), role: role.to_string(), system: system.to_string() }
}

fn allowed(role: &str, system: &str) -> AccessMatrix {
    AccessMatrix { role: role.to_string(), system: system.to_string() }
}

fn exception(user_id: &str, system: &str) -> ExceptionRecord {
    ExceptionRecord { user_id: user_id.to_string(), system: system.to_string() }
}

fn violation(user_id: &str, role: &str, system: &str) -> Violation {
    Violation {
        user_id: user_id.to_string(),
        role: role.to_string(),
        system: system.to_string(),
        status: ComplianceStatus::NonCompliant,
    }
}

fn counts(compliant: usize, non_compliant: usize) -> Vec<StatusCount> {
    vec![
        StatusCount { status: ComplianceStatus::Compliant, count: compliant },
        StatusCount { status: ComplianceStatus::NonCompliant, count: non_compliant },
    ]
}

#[test]
fn access_matrix_match_is_compliant() {
    let result = process_compliance(
        &vec![access("U1", "admin", "erp")],
        &vec![allowed("admin", "erp")],
        &vec![],
    );
    assert!(result.violations.is_empty());
    assert_eq!(result.summary, counts(1, 0));
}

#[test]
fn access_matrix_match_is_compliant_even_with_an_exception() {
    let result = process_compliance(
        &vec![access("U1", "admin", "erp")],
        &vec![allowed("admin", "erp")],
        &vec![exception("U1", "erp")],
    );
    assert!(result.violations.is_empty());
    assert_eq!(result.summary, counts(1, 0));
}

#[test]
fn exception_alone_is_compliant_and_no_violation() {
    let result = process_compliance(
        &vec![access("U1", "clerk", "erp")],
        &vec![allowed("admin", "erp")],
        &vec![exception("U1", "erp")],
    );
    assert!(result.violations.is_empty());
    assert_eq!(result.summary, counts(1, 0));
}

#[test]
fn no_match_is_a_violation() {
    let result = process_compliance(
        &vec![access("U1", "clerk", "erp")],
        &vec![allowed("admin", "erp")],
        &vec![exception("U2", "erp"), exception("U1", "crm")],
    );
    assert_eq!(result.violations, vec![violation("U1", "clerk", "erp")]);
    assert_eq!(result.summary, counts(0, 1));
}

#[test]
fn classify_follows_the_rule_chain() {
    let matrix = PairSet::build(&vec![allowed("admin", "erp")]);
    let exceptions = PairSet::build(&vec![exception("U2", "erp")]);
    assert_eq!(
        access("U1", "admin", "erp").classify(&matrix, &exceptions),
        ComplianceStatus::Compliant
    );
    assert_eq!(
        access("U2", "admin", "erp").classify(&matrix, &exceptions),
        ComplianceStatus::Compliant
    );
    assert_eq!(
        access("U2", "clerk", "erp").classify(&matrix, &exceptions),
        ComplianceStatus::Compliant
    );
    assert_eq!(
        access("U1", "clerk", "erp").classify(&matrix, &exceptions),
        ComplianceStatus::NonCompliant
    );
    assert_eq!(
        access("U2", "clerk", "crm").classify(&matrix, &exceptions),
        ComplianceStatus::NonCompliant
    );
    assert_eq!(
        access("U1", "admin", "crm").classify(&matrix, &exceptions),
        ComplianceStatus::NonCompliant
    );
}

#[test]
fn each_rule_consults_its_own_relation() {
    let matrix = PairSet::build(&vec![allowed("admin", "erp")]);
    let exceptions = PairSet::build(&vec![exception("U2", "erp")]);
    let by_role = access("U1", "admin", "erp");
    let by_exception = access("U2", "clerk", "erp");
    let by_both = access("U2", "admin", "erp");
    let by_neither = access("U1", "clerk", "erp");
    let join = |access| JoinedAccess { access, allowed: &matrix, exceptions: &exceptions };
    assert!(AccessRule::InAccessMatrix.matches(&join(&by_role)));
    assert!(!AccessRule::InExceptionList.matches(&join(&by_role)));
    assert!(!AccessRule::InAccessMatrix.matches(&join(&by_exception)));
    assert!(AccessRule::InExceptionList.matches(&join(&by_exception)));
    assert!(AccessRule::InAccessMatrix.matches(&join(&by_both)));
    assert!(AccessRule::InExceptionList.matches(&join(&by_both)));
    assert!(!AccessRule::InAccessMatrix.matches(&join(&by_neither)));
    assert!(!AccessRule::InExceptionList.matches(&join(&by_neither)));
    assert_eq!(AccessRule::InAccessMatrix.outcome(), ComplianceStatus::Compliant);
    assert_eq!(AccessRule::InExceptionList.outcome(), ComplianceStatus::Compliant);
}

#[test]
fn matching_is_exact() {
    let result = process_compliance(
        &vec![
            access("U1", "Admin", "erp"),
            access("U2", "admin", "ERP"),
            access("U3", "admin", "erp "),
            access("u4", "clerk", "erp"),
            access("U5", "adm", "erp"),
        ],
        &vec![allowed("admin", "erp"), allowed("*", "erp")],
        &vec![exception("U4", "erp"), exception("U", "erp")],
    );
    assert_eq!(result.violations.len(), 5);
    assert_eq!(result.summary, counts(0, 5));
}

#[test]
fn role_pairs_and_user_pairs_are_kept_apart() {
    let result = process_compliance(
        &vec![access("admin", "clerk", "erp"), access("U1", "U9", "erp")],
        &vec![allowed("admin", "erp")],
        &vec![exception("U9", "erp")],
    );
    assert_eq!(
        result.violations,
        vec![violation("admin", "clerk", "erp"), violation("U1", "U9", "erp")]
    );
    assert_eq!(result.summary, counts(0, 2));
}

#[test]
fn violations_keep_the_order_of_the_records() {
    let result = process_compliance(
        &vec![
            access("U1", "guest", "erp"),
            access("U2", "admin", "erp"),
            access("U3", "guest", "crm"),
            access("U4", "clerk", "crm"),
            access("U1", "guest", "erp"),
            access("U5", "guest", "hr"),
        ],
        &vec![allowed("admin", "erp"), allowed("clerk", "crm")],
        &vec![exception("U3", "crm")],
    );
    assert_eq!(
        result.violations,
        vec![
            violation("U1", "guest", "erp"),
            violation("U1", "guest", "erp"),
            violation("U5", "guest", "hr"),
        ]
    );
    assert_eq!(result.summary, counts(3, 3));
}

#[test]
fn summary_counts_sum_to_the_number_of_records() {
    let user_access = vec![
        access("U1", "guest", "erp"),
        access("U2", "admin", "erp"),
        access("U3", "guest", "crm"),
        access("U4", "clerk", "crm"),
        access("U5", "guest", "hr"),
        access("U6", "admin", "hr"),
        access("U7", "admin", "erp"),
    ];
    let result = process_compliance(
        &user_access,
        &vec![allowed("admin", "erp"), allowed("clerk", "crm")],
        &vec![exception("U3", "crm"), exception("U6", "hr")],
    );
    assert_eq!(result.summary.len(), 2);
    assert_eq!(result.summary[0].status, ComplianceStatus::Compliant);
    assert_eq!(result.summary[1].status, ComplianceStatus::NonCompliant);
    assert_eq!(result.summary[0].count + result.summary[1].count, user_access.len());
    assert_eq!(result.summary[1].count, result.violations.len());
    assert_eq!(result.summary, counts(5, 2));
}

#[test]
fn summary_has_two_entries_for_an_empty_batch() {
    let result = process_compliance(&vec![], &vec![allowed("admin", "erp")], &vec![]);
    assert!(result.violations.is_empty());
    assert_eq!(result.summary, counts(0, 0));
}

#[test]
fn empty_reference_collections_make_every_record_a_violation() {
    let result = process_compliance(
        &vec![access("U1", "admin", "erp"), access("U2", "clerk", "crm")],
        &vec![],
        &vec![],
    );
    assert_eq!(
        result.violations,
        vec![violation("U1", "admin", "erp"), violation("U2", "clerk", "crm")]
    );
    assert_eq!(result.summary, counts(0, 2));
}

#[test]
fn to_violation_copies_the_record() {
    assert_eq!(access("U1", "clerk", "erp").to_violation(), violation("U1", "clerk", "erp"));
}

#[test]
fn compliance_labels() {
    assert_eq!(ComplianceStatus::Compliant.label(), "Compliant");
    assert_eq!(ComplianceStatus::NonCompliant.label(), "Non-Compliant");
}
