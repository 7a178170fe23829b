use reconcile::amount::Amount;
use reconcile::key_index::KeyIndex;
use reconcile::payroll::{
    join_attendance, process_payroll, Adjustment, Attendance, AttendanceRule, Employee,
    PayrollError, PayrollRow, Salary, FULL_ATTENDANCE_DAYS,
};
use reconcile::rule_chain::Rule;

fn employee(employee_id: &str, name: &str, department: &str) -> Employee {
    Employee {
        employee_id: employee_id.to_string(),
        name: name.to_string(),
        department: department.to_string(),
    }
}

fn attendance(employee_id: &str, days_present: u32) -> Attendance {
    Attendance { employee_id: employee_id.to_string(), days_present }
}

fn salary(employee_id: &str, basic_salary: f64, allowance: f64) -> Salary {
    Salary {
        employee_id: employee_id.to_string(),
        basic_salary: Amount::from_bits(basic_salary.to_bits()),
        allowance: Amount::from_bits(allowance.to_bits()),
    }
}

fn gross_salary(row: &PayrollRow) -> f64 {
    f64::from_bits(row.basic_salary.to_bits()) + f64::from_bits(row.allowance.to_bits())
}

fn final_salary(row: &PayrollRow) -> f64 {
    match row.adjustment {
        Adjustment::Full => gross_salary(row),
        Adjustment::Reduced => {
            gross_salary(row) * f64::from_bits(row.adjustment.factor().to_bits())
        }
    }
}

#[test]
fn end_to_end_reduced_salary() {
    let rows = process_payroll(
        &vec![employee("E1", "Ann", "Ops")],
        &vec![attendance("E1", 18)],
        &vec![salary("E1", 3000.0, 500.0)],
    )
    .unwrap();
    assert_eq!(rows.len(), 1);
    let row = &rows[0];
    assert_eq!(row.employee_id, "E1");
    assert_eq!(row.name, "Ann");
    assert_eq!(row.department, "Ops");
    assert_eq!(row.days_present, 18);
    assert_eq!(row.basic_salary, Amount::from_bits(3000.0f64.to_bits()));
    assert_eq!(row.allowance, Amount::from_bits(500.0f64.to_bits()));
    assert_eq!(row.adjustment, Adjustment::Reduced);
    assert_eq!(gross_salary(row), 3500.0);
    assert_eq!(final_salary(row), 3150.0);
}

#[test]
fn twenty_days_are_paid_in_full() {
    let rows = process_payroll(
        &vec![employee("E1", "Ann", "Ops")],
        &vec![attendance("E1", 20)],
        &vec![salary("E1", 3000.0, 500.0)],
    )
    .unwrap();
    assert_eq!(rows[0].adjustment, Adjustment::Full);
    assert_eq!(final_salary(&rows[0]), gross_salary(&rows[0]));
    assert_eq!(final_salary(&rows[0]), 3500.0);
}

#[test]
fn nineteen_days_are_reduced() {
    let rows = process_payroll(
        &vec![employee("E1", "Ann", "Ops")],
        &vec![attendance("E1", 19)],
        &vec![salary("E1", 3000.0, 500.0)],
    )
    .unwrap();
    assert_eq!(rows[0].adjustment, Adjustment::Reduced);
    assert_eq!(final_salary(&rows[0]), gross_salary(&rows[0]) * 0.9);
}

#[test]
fn attendance_rule_at_its_boundaries() {
    assert_eq!(FULL_ATTENDANCE_DAYS, 20);
    assert_eq!(attendance("E1", 0).adjustment(), Adjustment::Reduced);
    assert_eq!(attendance("E1", 19).adjustment(), Adjustment::Reduced);
    assert_eq!(attendance("E1", 20).adjustment(), Adjustment::Full);
    assert_eq!(attendance("E1", 21).adjustment(), Adjustment::Full);
    assert_eq!(attendance("E1", u32::MAX).adjustment(), Adjustment::Full);
}

#[test]
fn short_attendance_rule() {
    let rule = AttendanceRule::ShortAttendance;
    assert!(rule.matches(&attendance("E1", 0)));
    assert!(rule.matches(&attendance("E1", 19)));
    assert!(!rule.matches(&attendance("E1", 20)));
    assert!(!rule.matches(&attendance("E1", 31)));
    assert_eq!(rule.outcome(), Adjustment::Reduced);
}

#[test]
fn adjustment_factors() {
    assert_eq!(f64::from_bits(Adjustment::Full.factor().to_bits()), 1.0);
    assert_eq!(f64::from_bits(Adjustment::Reduced.factor().to_bits()), 0.9);
}

#[test]
fn missing_employee_fails_the_batch() {
    let result = process_payroll(
        &vec![employee("E1", "Ann", "Ops")],
        &vec![attendance("E2", 18)],
        &vec![salary("E1", 3000.0, 500.0), salary("E2", 1000.0, 0.0)],
    );
    assert_eq!(result, Err(PayrollError::MissingEmployee));
    assert_eq!(result.unwrap_err().message(), "Employee_ID missing in Employee Master");
}

#[test]
fn missing_salary_fails_the_batch() {
    let result = process_payroll(
        &vec![employee("E1", "Ann", "Ops"), employee("E2", "Bob", "Dev")],
        &vec![attendance("E2", 18)],
        &vec![salary("E1", 3000.0, 500.0)],
    );
    assert_eq!(result, Err(PayrollError::MissingSalary));
    assert_eq!(result.unwrap_err().message(), "Employee_ID missing in Salary Structure");
}

#[test]
fn employee_master_is_consulted_first() {
    let result = process_payroll(
        &vec![employee("E1", "Ann", "Ops")],
        &vec![attendance("E9", 18)],
        &vec![salary("E1", 3000.0, 500.0)],
    );
    assert_eq!(result, Err(PayrollError::MissingEmployee));
}

#[test]
fn first_failing_record_decides_the_error() {
    let employees = vec![employee("E1", "Ann", "Ops"), employee("E2", "Bob", "Dev")];
    let salaries = vec![salary("E1", 3000.0, 500.0), salary("E3", 1.0, 1.0)];
    let salary_first = process_payroll(
        &employees,
        &vec![attendance("E1", 20), attendance("E2", 20), attendance("E3", 20)],
        &salaries,
    );
    assert_eq!(salary_first, Err(PayrollError::MissingSalary));
    let employee_first = process_payroll(
        &employees,
        &vec![attendance("E1", 20), attendance("E3", 20), attendance("E2", 20)],
        &salaries,
    );
    assert_eq!(employee_first, Err(PayrollError::MissingEmployee));
}

#[test]
fn late_failure_gives_no_rows() {
    let result = process_payroll(
        &vec![employee("E1", "Ann", "Ops")],
        &vec![attendance("E1", 20), attendance("E1", 10), attendance("E2", 20)],
        &vec![salary("E1", 3000.0, 500.0)],
    );
    assert!(result.is_err());
    assert_eq!(result.ok(), None);
}

#[test]
fn one_row_for_each_attendance_record_in_order() {
    let employees = vec![
        employee("E1", "Ann", "Ops"),
        employee("E2", "Bob", "Dev"),
        employee("E3", "Cy", "Ops"),
    ];
    let salaries =
        vec![salary("E3", 300.0, 3.0), salary("E2", 200.0, 2.0), salary("E1", 100.0, 1.0)];
    let records = vec![
        attendance("E3", 25),
        attendance("E1", 5),
        attendance("E2", 20),
        attendance("E1", 30),
    ];
    let rows = process_payroll(&employees, &records, &salaries).unwrap();
    assert_eq!(rows.len(), records.len());
    let names: Vec<&str> = rows.iter().map(|row| row.name.as_str()).collect();
    assert_eq!(names, vec!["Cy", "Ann", "Bob", "Ann"]);
    let days: Vec<u32> = rows.iter().map(|row| row.days_present).collect();
    assert_eq!(days, vec![25, 5, 20, 30]);
    let adjustments: Vec<Adjustment> = rows.iter().map(|row| row.adjustment).collect();
    assert_eq!(
        adjustments,
        vec![Adjustment::Full, Adjustment::Reduced, Adjustment::Full, Adjustment::Full]
    );
    let gross: Vec<f64> = rows.iter().map(gross_salary).collect();
    assert_eq!(gross, vec![303.0, 101.0, 202.0, 101.0]);
}

#[test]
fn empty_attendance_gives_no_rows() {
    let rows =
        process_payroll(&vec![employee("E1", "Ann", "Ops")], &vec![], &vec![salary("E1", 1.0, 1.0)])
            .unwrap();
    assert!(rows.is_empty());
    let rows = process_payroll(&vec![], &vec![], &vec![]).unwrap();
    assert!(rows.is_empty());
}

#[test]
fn later_reference_record_with_the_same_identifier_wins() {
    let rows = process_payroll(
        &vec![employee("E1", "Ann", "Ops"), employee("E1", "Anna", "Sales")],
        &vec![attendance("E1", 20)],
        &vec![salary("E1", 3000.0, 500.0), salary("E1", 4000.0, 600.0)],
    )
    .unwrap();
    assert_eq!(rows[0].name, "Anna");
    assert_eq!(rows[0].department, "Sales");
    assert_eq!(gross_salary(&rows[0]), 4600.0);
}

#[test]
fn join_of_one_record() {
    let employees = vec![employee("E1", "Ann", "Ops"), employee("E2", "Bob", "Dev")];
    let salaries = vec![salary("E1", 3000.0, 500.0)];
    let employee_index = KeyIndex::build(&employees);
    let salary_index = KeyIndex::build(&salaries);
    let row = join_attendance(&employee_index, &salary_index, &attendance("E1", 18)).unwrap();
    assert_eq!(
        row,
        PayrollRow {
            employee_id: "E1".to_string(),
            name: "Ann".to_string(),
            department: "Ops".to_string(),
            days_present: 18,
            basic_salary: Amount::from_bits(3000.0f64.to_bits()),
            allowance: Amount::from_bits(500.0f64.to_bits()),
            adjustment: Adjustment::Reduced,
        }
    );
    assert_eq!(
        join_attendance(&employee_index, &salary_index, &attendance("E2", 18)),
        Err(PayrollError::MissingSalary)
    );
    assert_eq!(
        join_attendance(&employee_index, &salary_index, &attendance("E3", 18)),
        Err(PayrollError::MissingEmployee)
    );
}

#[test]
fn fractional_salaries_are_carried_through_unchanged() {
    let rows = process_payroll(
        &vec![employee("E1", "Ann", "Ops")],
        &vec![attendance("E1", 1)],
        &vec![salary("E1", 0.1, 0.2)],
    )
    .unwrap();
    assert_eq!(rows[0].basic_salary.to_bits(), 0.1f64.to_bits());
    assert_eq!(rows[0].allowance.to_bits(), 0.2f64.to_bits());
    assert_eq!(gross_salary(&rows[0]), 0.1 + 0.2);
    assert_eq!(final_salary(&rows[0]), (0.1 + 0.2) * 0.9);
}
