//! The payroll kernel.
//!
//! Every attendance record is joined with the employee master and with the
//! salary structure by employee identifier. A record that finds no partner in
//! either collection fails the whole batch. For each joined record the kernel
//! decides, from the days present, whether the salary is paid in full or
//! reduced.

use vstd::prelude::*;
use vstd::arithmetic::power2::{lemma2_to64_rest, lemma_pow2_adds, pow2};
use crate::amount::Amount;
use crate::key_index::{key_map, KeyIndex, Keyed};
use crate::rule_chain::{decide, evaluate, Rule};

verus! {

/// The days of presence from which a salary is paid in full.
pub const FULL_ATTENDANCE_DAYS: u32 = 20;

/// The bit pattern of the factor applied to the gross salary of an employee
/// who was present on fewer than [`FULL_ATTENDANCE_DAYS`] days: the binary64
/// number nearest to nine tenths.
pub const REDUCED_PAY_FACTOR_BITS: u64 = 0x3FEC_CCCC_CCCC_CCCD;

/// The bit pattern of the binary64 number one, the factor of a salary that is
/// paid in full.
pub const FULL_PAY_FACTOR_BITS: u64 = 0x3FF0_0000_0000_0000;

/// A record of the employee master.
#[derive(Clone, Debug, PartialEq, Eq)]
pub struct Employee {
    pub employee_id: String,
    pub name: String,
    pub department: String,
}

/// A record of the attendance collection, the primary collection of the
/// payroll kernel.
#[derive(Clone, Debug, PartialEq, Eq)]
pub struct Attendance {
    pub employee_id: String,
    pub days_present: u32,
}

/// A record of the salary structure.
#[derive(Clone, Debug, PartialEq, Eq)]
pub struct Salary {
    pub employee_id: String,
    pub basic_salary: Amount,
    pub allowance: Amount,
}

/// What the attendance rule decides for one employee.
#[derive(Clone, Copy, Debug, PartialEq, Eq, Structural)]
pub enum Adjustment {
    /// The final salary is the gross salary.
    Full,
    /// The final salary is the gross salary times the factor whose bit
    /// pattern is [`REDUCED_PAY_FACTOR_BITS`].
    Reduced,
}

/// The rules of the attendance chain.
#[derive(Clone, Copy, Debug, PartialEq, Eq, Structural)]
pub enum AttendanceRule {
    /// Fewer than [`FULL_ATTENDANCE_DAYS`] days present: the salary is
    /// reduced.
    ShortAttendance,
}

/// One row of the payroll. The gross salary is the sum of `basic_salary` and
/// `allowance`; the final salary follows from it by `adjustment`.
#[derive(Clone, Debug, PartialEq, Eq)]
pub struct PayrollRow {
    pub employee_id: String,
    pub name: String,
    pub department: String,
    pub days_present: u32,
    pub basic_salary: Amount,
    pub allowance: Amount,
    pub adjustment: Adjustment,
}

/// The mathematical content of a [`PayrollRow`].
pub struct PayrollRowView {
    pub employee_id: Seq<char>,
    pub name: Seq<char>,
    pub department: Seq<char>,
    pub days_present: u32,
    pub basic_salary: Amount,
    pub allowance: Amount,
    pub adjustment: Adjustment,
}

/// Why a payroll batch failed: the reference collection in which an
/// attendance record found no partner.
#[derive(Clone, Copy, Debug, PartialEq, Eq, Structural)]
pub enum PayrollError {
    MissingEmployee,
    MissingSalary,
}

impl View for PayrollRow {
    type V = PayrollRowView;

    open spec fn view(&self) -> PayrollRowView {
        PayrollRowView {
            employee_id: self.employee_id@,
            name: self.name@,
            department: self.department@,
            days_present: self.days_present,
            basic_salary: self.basic_salary,
            allowance: self.allowance,
            adjustment: self.adjustment,
        }
    }
}

impl Keyed for Employee {
    open spec fn spec_key(&self) -> Seq<char> {
        self.employee_id@
    }

    fn key(&self) -> (key: &String) {
        &self.employee_id
    }
}

impl Keyed for Salary {
    open spec fn spec_key(&self) -> Seq<char> {
        self.employee_id@
    }

    fn key(&self) -> (key: &String) {
        &self.employee_id
    }
}

impl Rule<Attendance, Adjustment> for AttendanceRule {
    open spec fn spec_matches(&self, record: &Attendance) -> bool {
        record.days_present < FULL_ATTENDANCE_DAYS
    }

    open spec fn spec_outcome(&self) -> Adjustment {
        Adjustment::Reduced
    }

    fn matches(&self, record: &Attendance) -> (matched: bool) {
        record.days_present < FULL_ATTENDANCE_DAYS
    }

    fn outcome(&self) -> (outcome: Adjustment) {
        Adjustment::Reduced
    }
}

/// The attendance chain. An attendance record that its one rule does not
/// match leaves the salary whole.
pub open spec fn attendance_chain() -> Seq<AttendanceRule> {
    seq![AttendanceRule::ShortAttendance]
}

impl Adjustment {
    /// The adjustment for an employee who was present on `days_present` days:
    /// fewer than [`FULL_ATTENDANCE_DAYS`] days reduce the salary, exactly
    /// that many or more leave it whole.
    pub open spec fn for_days(days_present: u32) -> Adjustment {
        if days_present < FULL_ATTENDANCE_DAYS {
            Adjustment::Reduced
        } else {
            Adjustment::Full
        }
    }

    /// The factor by which the gross salary is multiplied to give the final
    /// salary.
    pub fn factor(&self) -> (factor: Amount)
        ensures
            factor.bits == (match *self {
                Adjustment::Full => FULL_PAY_FACTOR_BITS,
                Adjustment::Reduced => REDUCED_PAY_FACTOR_BITS,
            }),
    {
        match self {
            Adjustment::Full => Amount::from_bits(FULL_PAY_FACTOR_BITS),
            Adjustment::Reduced => Amount::from_bits(REDUCED_PAY_FACTOR_BITS),
        }
    }
}

impl Attendance {
    /// Decides the adjustment of the salary by the attendance chain.
    pub fn adjustment(&self) -> (adjustment: Adjustment)
        ensures
            adjustment == Adjustment::for_days(self.days_present),
            adjustment == decide(attendance_chain(), self, Adjustment::Full),
    {
        let chain = [AttendanceRule::ShortAttendance];
        proof {
            assert(chain@ == attendance_chain());
            lemma_attendance_chain_decides(*self);
        }
        evaluate(chain.as_slice(), self, Adjustment::Full)
    }
}

impl PayrollError {
    /// The message of the error.
    pub open spec fn spec_message(self) -> Seq<char> {
        match self {
            PayrollError::MissingEmployee => "Employee_ID missing in Employee Master"@,
            PayrollError::MissingSalary => "Employee_ID missing in Salary Structure"@,
        }
    }

    /// The message of the error, which names the collection that lacks the
    /// employee identifier.
    pub fn message(&self) -> (message: &'static str)
        ensures
            message@ == self.spec_message(),
    {
        match self {
            PayrollError::MissingEmployee => "Employee_ID missing in Employee Master",
            PayrollError::MissingSalary => "Employee_ID missing in Salary Structure",
        }
    }
}

/// The relation that lacks the employee identifier, if one of the two does.
/// The employee master is consulted before the salary structure.
pub open spec fn missing_relation(
    employees: Map<Seq<char>, Employee>,
    salaries: Map<Seq<char>, Salary>,
    employee_id: Seq<char>,
) -> Option<PayrollError> {
    if !employees.contains_key(employee_id) {
        Some(PayrollError::MissingEmployee)
    } else if !salaries.contains_key(employee_id) {
        Some(PayrollError::MissingSalary)
    } else {
        None
    }
}

/// The payroll row of an attendance record joined with an employee and a
/// salary.
pub open spec fn row_of(
    employee: Employee,
    salary: Salary,
    attendance: Attendance,
) -> PayrollRowView {
    PayrollRowView {
        employee_id: employee.employee_id@,
        name: employee.name@,
        department: employee.department@,
        days_present: attendance.days_present,
        basic_salary: salary.basic_salary,
        allowance: salary.allowance,
        adjustment: Adjustment::for_days(attendance.days_present),
    }
}

/// The join failure of an attendance record of a batch, if it has one.
pub open spec fn join_miss(
    employees: Seq<Employee>,
    salaries: Seq<Salary>,
    attendance: Attendance,
) -> Option<PayrollError> {
    missing_relation(key_map(employees), key_map(salaries), attendance.employee_id@)
}

/// The payroll row of an attendance record of a batch that joins with both
/// reference collections.
pub open spec fn joined_row(
    employees: Seq<Employee>,
    salaries: Seq<Salary>,
    attendance: Attendance,
) -> PayrollRowView {
    row_of(
        key_map(employees)[attendance.employee_id@],
        key_map(salaries)[attendance.employee_id@],
        attendance,
    )
}

/// Whether every attendance record of a batch joins with both reference
/// collections.
pub open spec fn joins_completely(
    employees: Seq<Employee>,
    attendance: Seq<Attendance>,
    salaries: Seq<Salary>,
) -> bool {
    forall|i: int|
        0 <= i < attendance.len() ==> join_miss(employees, salaries, #[trigger] attendance[i])
            is None
}

/// Whether the attendance record at position `i` is the first of the batch
/// that fails to join.
pub open spec fn is_first_miss(
    employees: Seq<Employee>,
    attendance: Seq<Attendance>,
    salaries: Seq<Salary>,
    i: int,
) -> bool {
    &&& 0 <= i < attendance.len()
    &&& join_miss(employees, salaries, attendance[i]) is Some
    &&& joins_completely(employees, attendance.take(i), salaries)
}

/// Joins one attendance record with both indexes and applies the attendance
/// chain to it. The join fails where an index lacks the employee identifier
/// of the record, with the error that names the relation.
pub fn join_attendance(
    employee_index: &KeyIndex<'_, Employee>,
    salary_index: &KeyIndex<'_, Salary>,
    attendance: &Attendance,
) -> (result: Result<PayrollRow, PayrollError>)
    ensures
        match result {
            Ok(row) => {
                &&& missing_relation(employee_index@, salary_index@, attendance.employee_id@)
                    is None
                &&& row@ == row_of(
                    employee_index@[attendance.employee_id@],
                    salary_index@[attendance.employee_id@],
                    *attendance,
                )
            },
            Err(error) => missing_relation(
                employee_index@,
                salary_index@,
                attendance.employee_id@,
            ) == Some(error),
        },
{
    let employee = match employee_index.lookup(attendance.employee_id.as_str()) {
        Some(employee) => employee,
        None => {
            return Err(PayrollError::MissingEmployee);
        },
    };
    let salary = match salary_index.lookup(attendance.employee_id.as_str()) {
        Some(salary) => salary,
        None => {
            return Err(PayrollError::MissingSalary);
        },
    };
    Ok(
        PayrollRow {
            employee_id: employee.employee_id.clone(),
            name: employee.name.clone(),
            department: employee.department.clone(),
            days_present: attendance.days_present,
            basic_salary: salary.basic_salary,
            allowance: salary.allowance,
            adjustment: attendance.adjustment(),
        },
    )
}

/// Computes the payroll of a batch.
///
/// The batch succeeds exactly when every attendance record joins with both
/// reference collections. The result then has one row for each attendance
/// record, in the order of the attendance collection. Otherwise the batch
/// fails as a whole, with the error of the first attendance record that
/// fails to join, and gives no row.
pub fn process_payroll(
    employees: &[Employee],
    attendance: &[Attendance],
    salaries: &[Salary],
) -> (result: Result<Vec<PayrollRow>, PayrollError>)
    ensures
        result is Ok <==> joins_completely(employees@, attendance@, salaries@),
        match result {
            Ok(rows) => {
                &&& rows@.len() == attendance@.len()
                &&& forall|i: int|
                    0 <= i < attendance@.len() ==> (#[trigger] rows@[i])@ == joined_row(
                        employees@,
                        salaries@,
                        attendance@[i],
                    )
            },
            Err(error) => exists|i: int|
                {
                    &&& is_first_miss(employees@, attendance@, salaries@, i)
                    &&& join_miss(employees@, salaries@, #[trigger] attendance@[i]) == Some(error)
                },
        },
{
    let employee_index = KeyIndex::build(employees);
    let salary_index = KeyIndex::build(salaries);
    let mut rows: Vec<PayrollRow> = Vec::new();
    let mut i: usize = 0;
    while i < attendance.len()
        invariant
            i <= attendance.len(),
            employee_index@ == key_map(employees@),
            salary_index@ == key_map(salaries@),
            rows@.len() == i,
            joins_completely(employees@, attendance@.take(i as int), salaries@),
            forall|j: int|
                0 <= j < i ==> (#[trigger] rows@[j])@ == joined_row(
                    employees@,
                    salaries@,
                    attendance@[j],
                ),
        decreases attendance.len() - i,
    {
        match join_attendance(&employee_index, &salary_index, &attendance[i]) {
            Ok(row) => {
                rows.push(row);
            },
            Err(error) => {
                assert(is_first_miss(employees@, attendance@, salaries@, i as int));
                return Err(error);
            },
        }
        proof {
            assert forall|j: int| 0 <= j < i + 1 implies join_miss(
                employees@,
                salaries@,
                #[trigger] attendance@.take(i + 1)[j],
            ) is None by {
                if j < i {
                    assert(attendance@.take(i + 1)[j] == attendance@.take(i as int)[j]);
                }
            }
        }
        i += 1;
    }
    proof {
        assert(attendance@.take(i as int) == attendance@);
    }
    Ok(rows)
}

/// The adjustment of a salary is what the attendance chain decides for the
/// attendance record.
pub proof fn lemma_attendance_chain_decides(attendance: Attendance)
    ensures
        Adjustment::for_days(attendance.days_present) == decide(
            attendance_chain(),
            &attendance,
            Adjustment::Full,
        ),
{
    reveal_with_fuel(decide, 2);
}

/// The factor of a salary paid in full is the number one. The factor of a
/// reduced salary is nine tenths rounded to binary64: it exceeds nine tenths
/// by a fifth of the spacing of the binary64 numbers around it.
pub proof fn lemma_pay_factor_values()
    ensures
        (Amount { bits: FULL_PAY_FACTOR_BITS }).scaled_value() == pow2(1074),
        10 * (Amount { bits: REDUCED_PAY_FACTOR_BITS }).scaled_value() - 9 * pow2(1074) == 2 * pow2(
            1021,
        ),
{
    lemma2_to64_rest();
    lemma_pow2_adds(52, 1022);
    lemma_pow2_adds(53, 1021);
    let unit = pow2(1021) as int;
    assert(10 * (0x1C_CCCC_CCCC_CCCD * unit) - 9 * (0x20_0000_0000_0000 * unit) == 2 * unit)
        by (nonlinear_arith);
}

/// A batch has at most one first failure, so the error of a failed batch is
/// determined by the batch.
pub proof fn lemma_first_miss_is_unique(
    employees: Seq<Employee>,
    attendance: Seq<Attendance>,
    salaries: Seq<Salary>,
    i: int,
    j: int,
)
    requires
        is_first_miss(employees, attendance, salaries, i),
        is_first_miss(employees, attendance, salaries, j),
    ensures
        i == j,
{
    if i < j {
        assert(attendance.take(j)[i] == attendance[i]);
    } else if j < i {
        assert(attendance.take(i)[j] == attendance[j]);
    }
}

} // verus!
