//! The access-compliance kernel.
//!
//! Every user-access record is checked against the access matrix and against
//! the exception list. A record that matches neither is a violation; to match
//! none is an outcome of the check, never an error. The kernel returns the
//! violations and the counts of compliant and of non-compliant records.

use vstd::prelude::*;
use crate::pair_set::{pairs_of, PairKeyed, PairSet};
use crate::rule_chain::{decide, evaluate, Rule};

verus! {

/// A record of the user-access collection, the primary collection of the
/// compliance kernel.
#[derive(Clone, Debug, PartialEq, Eq)]
pub struct UserAccess {
    pub user_id: String,
    pub role: String,
    pub system: String,
}

/// A record of the access matrix: a role and a system that the role may use.
#[derive(Clone, Debug, PartialEq, Eq)]
pub struct AccessMatrix {
    pub role: String,
    pub system: String,
}

/// A record of the exception list: a user and a system that the user may use
/// whatever the role.
#[derive(Clone, Debug, PartialEq, Eq)]
pub struct ExceptionRecord {
    pub user_id: String,
    pub system: String,
}

/// The outcomes of the compliance check.
#[derive(Clone, Copy, Debug, PartialEq, Eq, Structural)]
pub enum ComplianceStatus {
    Compliant,
    NonCompliant,
}

/// A user-access record together with the two reference relations against
/// which it is checked.
pub struct JoinedAccess<'a> {
    pub access: &'a UserAccess,
    pub allowed: &'a PairSet,
    pub exceptions: &'a PairSet,
}

/// The rules of the compliance chain. Either makes the record compliant.
#[derive(Clone, Copy, Debug, PartialEq, Eq, Structural)]
pub enum AccessRule {
    /// The role and the system of the record stand together in the access
    /// matrix.
    InAccessMatrix,
    /// The user and the system of the record stand together in the exception
    /// list.
    InExceptionList,
}

/// A user-access record that is not compliant.
#[derive(Clone, Debug, PartialEq, Eq)]
pub struct Violation {
    pub user_id: String,
    pub role: String,
    pub system: String,
    pub status: ComplianceStatus,
}

/// The mathematical content of a [`Violation`].
pub struct ViolationView {
    pub user_id: Seq<char>,
    pub role: Seq<char>,
    pub system: Seq<char>,
    pub status: ComplianceStatus,
}

/// The number of user-access records with one outcome.
#[derive(Clone, Copy, Debug, PartialEq, Eq, Structural)]
pub struct StatusCount {
    pub status: ComplianceStatus,
    pub count: usize,
}

/// The result of the compliance kernel.
#[derive(Clone, Debug, PartialEq, Eq)]
pub struct ComplianceResult {
    pub violations: Vec<Violation>,
    pub summary: Vec<StatusCount>,
}

/// The mathematical content of a [`StatusCount`].
pub struct StatusCountView {
    pub status: ComplianceStatus,
    pub count: nat,
}

/// The mathematical content of a [`ComplianceResult`].
pub struct ComplianceResultView {
    pub violations: Seq<ViolationView>,
    pub summary: Seq<StatusCountView>,
}

impl View for Violation {
    type V = ViolationView;

    open spec fn view(&self) -> ViolationView {
        ViolationView {
            user_id: self.user_id@,
            role: self.role@,
            system: self.system@,
            status: self.status,
        }
    }
}

impl View for StatusCount {
    type V = StatusCountView;

    open spec fn view(&self) -> StatusCountView {
        StatusCountView { status: self.status, count: self.count as nat }
    }
}

impl View for ComplianceResult {
    type V = ComplianceResultView;

    open spec fn view(&self) -> ComplianceResultView {
        ComplianceResultView {
            violations: violation_views(self.violations@),
            summary: self.summary@.map_values(|count: StatusCount| count@),
        }
    }
}

/// The contents of a sequence of violations.
pub open spec fn violation_views(violations: Seq<Violation>) -> Seq<ViolationView> {
    violations.map_values(|violation: Violation| violation@)
}

impl PairKeyed for AccessMatrix {
    open spec fn spec_pair(&self) -> (Seq<char>, Seq<char>) {
        (self.role@, self.system@)
    }

    fn pair(&self) -> (pair: (&String, &String)) {
        (&self.role, &self.system)
    }
}

impl PairKeyed for ExceptionRecord {
    open spec fn spec_pair(&self) -> (Seq<char>, Seq<char>) {
        (self.user_id@, self.system@)
    }

    fn pair(&self) -> (pair: (&String, &String)) {
        (&self.user_id, &self.system)
    }
}

impl<'a> Rule<JoinedAccess<'a>, ComplianceStatus> for AccessRule {
    open spec fn spec_matches(&self, record: &JoinedAccess<'a>) -> bool {
        match self {
            AccessRule::InAccessMatrix => record.allowed@.contains(
                (record.access.role@, record.access.system@),
            ),
            AccessRule::InExceptionList => record.exceptions@.contains(
                (record.access.user_id@, record.access.system@),
            ),
        }
    }

    open spec fn spec_outcome(&self) -> ComplianceStatus {
        ComplianceStatus::Compliant
    }

    fn matches(&self, record: &JoinedAccess<'a>) -> (matched: bool) {
        match self {
            AccessRule::InAccessMatrix => record.allowed.contains(
                record.access.role.as_str(),
                record.access.system.as_str(),
            ),
            AccessRule::InExceptionList => record.exceptions.contains(
                record.access.user_id.as_str(),
                record.access.system.as_str(),
            ),
        }
    }

    fn outcome(&self) -> (outcome: ComplianceStatus) {
        ComplianceStatus::Compliant
    }
}

/// The compliance chain: the rules in the order in which they are tried. A
/// record that no rule matches is not compliant.
pub open spec fn access_chain() -> Seq<AccessRule> {
    seq![AccessRule::InAccessMatrix, AccessRule::InExceptionList]
}

impl ComplianceStatus {
    /// The label of the outcome.
    pub open spec fn spec_label(self) -> Seq<char> {
        match self {
            ComplianceStatus::Compliant => "Compliant"@,
            ComplianceStatus::NonCompliant => "Non-Compliant"@,
        }
    }

    /// The label of the outcome.
    pub fn label(&self) -> (label: &'static str)
        ensures
            label@ == self.spec_label(),
    {
        match self {
            ComplianceStatus::Compliant => "Compliant",
            ComplianceStatus::NonCompliant => "Non-Compliant",
        }
    }
}

impl UserAccess {
    /// The outcome of the check for this record. The rules are tried in
    /// order: the role may use the system by the access matrix; else the
    /// user may use the system by the exception list; else the record is not
    /// compliant. A pair matches only where both of its components are equal.
    pub open spec fn status(
        self,
        allowed: Set<(Seq<char>, Seq<char>)>,
        exceptions: Set<(Seq<char>, Seq<char>)>,
    ) -> ComplianceStatus {
        if allowed.contains((self.role@, self.system@)) {
            ComplianceStatus::Compliant
        } else if exceptions.contains((self.user_id@, self.system@)) {
            ComplianceStatus::Compliant
        } else {
            ComplianceStatus::NonCompliant
        }
    }

    /// The violation that this record gives rise to if it is not compliant.
    pub open spec fn violation(self) -> ViolationView {
        ViolationView {
            user_id: self.user_id@,
            role: self.role@,
            system: self.system@,
            status: ComplianceStatus::NonCompliant,
        }
    }

    /// Checks the record against the access matrix and the exception list
    /// by the compliance chain.
    pub fn classify(&self, allowed: &PairSet, exceptions: &PairSet) -> (status: ComplianceStatus)
        ensures
            status == self.status(allowed@, exceptions@),
            status == decide(
                access_chain(),
                &(JoinedAccess { access: self, allowed, exceptions }),
                ComplianceStatus::NonCompliant,
            ),
    {
        let chain = [AccessRule::InAccessMatrix, AccessRule::InExceptionList];
        let joined = JoinedAccess { access: self, allowed, exceptions };
        proof {
            assert(chain@ == access_chain());
            lemma_access_chain_decides(joined);
        }
        evaluate(chain.as_slice(), &joined, ComplianceStatus::NonCompliant)
    }

    /// The violation record of a user-access record that is not compliant.
    pub fn to_violation(&self) -> (violation: Violation)
        ensures
            violation@ == self.violation(),
    {
        Violation {
            user_id: self.user_id.clone(),
            role: self.role.clone(),
            system: self.system.clone(),
            status: ComplianceStatus::NonCompliant,
        }
    }
}

/// The predicate that holds of the user-access records with the outcome
/// `status`, given the two reference collections.
pub open spec fn with_status(
    access_matrix: Seq<AccessMatrix>,
    exception_list: Seq<ExceptionRecord>,
    status: ComplianceStatus,
) -> spec_fn(UserAccess) -> bool {
    |access: UserAccess|
        access.status(pairs_of(access_matrix), pairs_of(exception_list)) == status
}

/// The violations that the given records give rise to, one for each.
pub open spec fn as_violations(records: Seq<UserAccess>) -> Seq<ViolationView> {
    records.map_values(|access: UserAccess| access.violation())
}

/// The violations among the records `user_access`, in the order of the
/// records.
pub open spec fn violations_of(
    user_access: Seq<UserAccess>,
    access_matrix: Seq<AccessMatrix>,
    exception_list: Seq<ExceptionRecord>,
) -> Seq<ViolationView> {
    as_violations(
        user_access.filter(
            with_status(access_matrix, exception_list, ComplianceStatus::NonCompliant),
        ),
    )
}

/// The number of the records `user_access` with the outcome `status`.
pub open spec fn count_status(
    user_access: Seq<UserAccess>,
    access_matrix: Seq<AccessMatrix>,
    exception_list: Seq<ExceptionRecord>,
    status: ComplianceStatus,
) -> nat {
    user_access.filter(with_status(access_matrix, exception_list, status)).len()
}

/// The result of the compliance kernel on a batch.
pub open spec fn compliance_check(
    user_access: Seq<UserAccess>,
    access_matrix: Seq<AccessMatrix>,
    exception_list: Seq<ExceptionRecord>,
) -> ComplianceResultView {
    ComplianceResultView {
        violations: violations_of(user_access, access_matrix, exception_list),
        summary: seq![
            StatusCountView {
                status: ComplianceStatus::Compliant,
                count: count_status(
                    user_access,
                    access_matrix,
                    exception_list,
                    ComplianceStatus::Compliant,
                ),
            },
            StatusCountView {
                status: ComplianceStatus::NonCompliant,
                count: count_status(
                    user_access,
                    access_matrix,
                    exception_list,
                    ComplianceStatus::NonCompliant,
                ),
            },
        ],
    }
}

/// Checks a batch of user-access records.
///
/// The violations keep the order of the user-access collection. The summary
/// holds the count of the compliant records and then that of the
/// non-compliant ones, whatever the counts are; together they count every
/// user-access record once.
pub fn process_compliance(
    user_access: &[UserAccess],
    access_matrix: &[AccessMatrix],
    exception_list: &[ExceptionRecord],
) -> (result: ComplianceResult)
    ensures
        result@ == compliance_check(user_access@, access_matrix@, exception_list@),
        result.summary@.len() == 2,
        result.summary@[0].status == ComplianceStatus::Compliant,
        result.summary@[0].count == count_status(
            user_access@,
            access_matrix@,
            exception_list@,
            ComplianceStatus::Compliant,
        ),
        result.summary@[1].status == ComplianceStatus::NonCompliant,
        result.summary@[1].count == count_status(
            user_access@,
            access_matrix@,
            exception_list@,
            ComplianceStatus::NonCompliant,
        ),
        result.summary@[1].count == result.violations@.len(),
        result.summary@[0].count + result.summary@[1].count == user_access@.len(),
{
    let allowed = PairSet::build(access_matrix);
    let exceptions = PairSet::build(exception_list);
    let mut compliant: usize = 0;
    let mut non_compliant: usize = 0;
    let mut violations: Vec<Violation> = Vec::new();
    let mut i: usize = 0;
    while i < user_access.len()
        invariant
            i <= user_access.len(),
            allowed@ == pairs_of(access_matrix@),
            exceptions@ == pairs_of(exception_list@),
            compliant == count_status(
                user_access@.take(i as int),
                access_matrix@,
                exception_list@,
                ComplianceStatus::Compliant,
            ),
            non_compliant == count_status(
                user_access@.take(i as int),
                access_matrix@,
                exception_list@,
                ComplianceStatus::NonCompliant,
            ),
            compliant + non_compliant == i,
            violations@.len() == non_compliant,
            violation_views(violations@) == violations_of(
                user_access@.take(i as int),
                access_matrix@,
                exception_list@,
            ),
        decreases user_access.len() - i,
    {
        let access = &user_access[i];
        let ghost earlier = user_access@.take(i as int);
        let ghost is_violation = with_status(
            access_matrix@,
            exception_list@,
            ComplianceStatus::NonCompliant,
        );
        proof {
            assert(user_access@.take(i + 1) == earlier.push(*access));
            earlier.lemma_filter_push(
                *access,
                with_status(access_matrix@, exception_list@, ComplianceStatus::Compliant),
            );
            earlier.lemma_filter_push(*access, is_violation);
        }
        match access.classify(&allowed, &exceptions) {
            ComplianceStatus::Compliant => {
                compliant += 1;
            },
            ComplianceStatus::NonCompliant => {
                non_compliant += 1;
                let violation = access.to_violation();
                proof {
                    assert(violation_views(violations@.push(violation)) == violation_views(
                        violations@,
                    ).push(violation@));
                    assert(as_violations(earlier.filter(is_violation).push(*access))
                        == as_violations(earlier.filter(is_violation)).push(violation@));
                }
                violations.push(violation);
            },
        }
        i += 1;
    }
    proof {
        assert(user_access@.take(i as int) == user_access@);
    }
    let mut summary: Vec<StatusCount> = Vec::new();
    summary.push(StatusCount { status: ComplianceStatus::Compliant, count: compliant });
    summary.push(StatusCount { status: ComplianceStatus::NonCompliant, count: non_compliant });
    let result = ComplianceResult { violations, summary };
    assert(result@.summary == compliance_check(
        user_access@,
        access_matrix@,
        exception_list@,
    ).summary);
    result
}

/// The outcome of a record is what the compliance chain decides for the
/// record joined with the two relations.
pub proof fn lemma_access_chain_decides(joined: JoinedAccess)
    ensures
        joined.access.status(joined.allowed@, joined.exceptions@) == decide(
            access_chain(),
            &joined,
            ComplianceStatus::NonCompliant,
        ),
{
    reveal_with_fuel(decide, 3);
}

/// A record whose role and system stand together in the access matrix is
/// compliant, whatever the exception list holds.
pub proof fn lemma_access_matrix_match_is_compliant(
    access: UserAccess,
    access_matrix: Seq<AccessMatrix>,
    exception_list: Seq<ExceptionRecord>,
    i: int,
)
    requires
        0 <= i < access_matrix.len(),
        access_matrix[i].role@ == access.role@,
        access_matrix[i].system@ == access.system@,
    ensures
        access.status(pairs_of(access_matrix), pairs_of(exception_list))
            == ComplianceStatus::Compliant,
{
    assert(access_matrix[i].spec_pair() == (access.role@, access.system@));
}

/// A record whose user and system stand together in the exception list is
/// compliant, whatever the access matrix holds.
pub proof fn lemma_exception_match_is_compliant(
    access: UserAccess,
    access_matrix: Seq<AccessMatrix>,
    exception_list: Seq<ExceptionRecord>,
    i: int,
)
    requires
        0 <= i < exception_list.len(),
        exception_list[i].user_id@ == access.user_id@,
        exception_list[i].system@ == access.system@,
    ensures
        access.status(pairs_of(access_matrix), pairs_of(exception_list))
            == ComplianceStatus::Compliant,
{
    assert(exception_list[i].spec_pair() == (access.user_id@, access.system@));
}

/// A record is not compliant exactly when its role and system stand together
/// nowhere in the access matrix and its user and system stand together
/// nowhere in the exception list.
pub proof fn lemma_no_match_is_not_compliant(
    access: UserAccess,
    access_matrix: Seq<AccessMatrix>,
    exception_list: Seq<ExceptionRecord>,
)
    ensures
        access.status(pairs_of(access_matrix), pairs_of(exception_list))
            == ComplianceStatus::NonCompliant <==> {
            &&& forall|i: int|
                0 <= i < access_matrix.len() ==> !((#[trigger] access_matrix[i]).role@
                    == access.role@ && access_matrix[i].system@ == access.system@)
            &&& forall|i: int|
                0 <= i < exception_list.len() ==> !((#[trigger] exception_list[i]).user_id@
                    == access.user_id@ && exception_list[i].system@ == access.system@)
        },
{
    let allowed = pairs_of(access_matrix);
    let exceptions = pairs_of(exception_list);
    if allowed.contains((access.role@, access.system@)) {
        let i = choose|i: int|
            0 <= i < access_matrix.len() && (#[trigger] access_matrix[i]).spec_pair() == (
                access.role@,
                access.system@,
            );
        assert(access_matrix[i].role@ == access.role@);
    } else if exceptions.contains((access.user_id@, access.system@)) {
        let i = choose|i: int|
            0 <= i < exception_list.len() && (#[trigger] exception_list[i]).spec_pair() == (
                access.user_id@,
                access.system@,
            );
        assert(exception_list[i].user_id@ == access.user_id@);
    } else {
        assert forall|i: int| 0 <= i < access_matrix.len() implies !((
        #[trigger] access_matrix[i]).role@ == access.role@ && access_matrix[i].system@
            == access.system@) by {
            if access_matrix[i].role@ == access.role@ && access_matrix[i].system@
                == access.system@ {
                assert(access_matrix[i].spec_pair() == (access.role@, access.system@));
            }
        }
        assert forall|i: int| 0 <= i < exception_list.len() implies !((
        #[trigger] exception_list[i]).user_id@ == access.user_id@ && exception_list[i].system@
            == access.system@) by {
            if exception_list[i].user_id@ == access.user_id@ && exception_list[i].system@
                == access.system@ {
                assert(exception_list[i].spec_pair() == (access.user_id@, access.system@));
            }
        }
    }
}

/// The violations are the records that are not compliant, each once for each
/// time it occurs: no violation carries the user, role and system of a
/// compliant record, and every record that is not compliant is among them.
pub proof fn lemma_violations_are_the_non_compliant(
    user_access: Seq<UserAccess>,
    access_matrix: Seq<AccessMatrix>,
    exception_list: Seq<ExceptionRecord>,
    i: int,
)
    requires
        0 <= i < user_access.len(),
    ensures
        violations_of(user_access, access_matrix, exception_list).contains(
            user_access[i].violation(),
        ) <==> user_access[i].status(pairs_of(access_matrix), pairs_of(exception_list))
            == ComplianceStatus::NonCompliant,
{
    let is_violation = with_status(access_matrix, exception_list, ComplianceStatus::NonCompliant);
    let filtered = user_access.filter(is_violation);
    let violations = violations_of(user_access, access_matrix, exception_list);
    let access = user_access[i];
    if is_violation(access) {
        user_access.lemma_filter_contains(is_violation, i);
        let k = choose|k: int| 0 <= k < filtered.len() && filtered[k] == access;
        assert(violations[k] == access.violation());
    }
    if violations.contains(access.violation()) {
        let k = choose|k: int| 0 <= k < violations.len() && violations[k] == access.violation();
        user_access.lemma_filter_pred(is_violation, k);
        assert(filtered[k].violation() == access.violation());
        assert(filtered[k].role@ == access.role@);
        assert(filtered[k].status(pairs_of(access_matrix), pairs_of(exception_list))
            == access.status(pairs_of(access_matrix), pairs_of(exception_list)));
    }
}

/// Every record of a batch is counted once: the two counts of the summary
/// add up to the number of user-access records.
pub proof fn lemma_status_counts_cover_the_batch(
    user_access: Seq<UserAccess>,
    access_matrix: Seq<AccessMatrix>,
    exception_list: Seq<ExceptionRecord>,
)
    ensures
        count_status(user_access, access_matrix, exception_list, ComplianceStatus::Compliant)
            + count_status(
            user_access,
            access_matrix,
            exception_list,
            ComplianceStatus::NonCompliant,
        ) == user_access.len(),
    decreases user_access.len(),
{
    let is_compliant = with_status(access_matrix, exception_list, ComplianceStatus::Compliant);
    let is_violation = with_status(access_matrix, exception_list, ComplianceStatus::NonCompliant);
    if user_access.len() == 0 {
        user_access.lemma_filter_len(is_compliant);
        user_access.lemma_filter_len(is_violation);
    } else {
        let front = user_access.drop_last();
        lemma_status_counts_cover_the_batch(front, access_matrix, exception_list);
        assert(user_access == front.push(user_access.last()));
        front.lemma_filter_push(user_access.last(), is_compliant);
        front.lemma_filter_push(user_access.last(), is_violation);
    }
}

} // verus!
