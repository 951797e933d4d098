//! The orchestration of the write operations. Each one validates its form,
//! then runs a fixed list of read-only integrity checks against the store,
//! and is persisted only when all of them pass. `next_step` decides, from the
//! answers gathered so far, which check comes next, whether to persist, or
//! which error ends the operation; the caller performs the checks.

use vstd::prelude::*;
use vstd::string::*;
use crate::entities::dept::DeptForm;
use crate::entities::emp::EmpForm;
use crate::error::{ApiCustomError, ErrorView};
use crate::text::{decimal_text, i32_text};
use crate::validate::{dept_violations, emp_violations, validate_dept, validate_emp, ViolationView};

verus! {

/// A read-only existence query against the store.
#[derive(Clone, Copy, Debug, PartialEq, Eq, Structural)]
pub enum Check {
    /// Is there a department with this `deptno`?
    DepartmentExists(i32),
    /// Is there an employee with this `empno`?
    EmployeeExists(i32),
    /// Does any employee belong to this `deptno`?
    HasDependentEmployees(i32),
    /// Does any other employee have this `empno` as `mgr`?
    IsReferencedAsManager(i32),
}

/// The answer a check must give for the operation to go on.
pub open spec fn passes(c: Check, answer: bool) -> bool {
    match c {
        Check::DepartmentExists(_) | Check::EmployeeExists(_) => answer,
        Check::HasDependentEmployees(_) | Check::IsReferencedAsManager(_) => !answer,
    }
}

/// A write operation with its arguments.
#[derive(Clone, Debug)]
pub enum Op {
    CreateDept(DeptForm),
    UpdateDept(i32, DeptForm),
    DeleteDept(i32),
    CreateEmp(EmpForm),
    UpdateEmp(i32, EmpForm),
    DeleteEmp(i32),
}

/// The field rules the operation's form breaks (none for a delete).
pub open spec fn op_violations(op: Op) -> Seq<ViolationView> {
    match op {
        Op::CreateDept(f) => dept_violations(f@),
        Op::UpdateDept(_, f) => dept_violations(f@),
        Op::CreateEmp(f) => emp_violations(f@),
        Op::UpdateEmp(_, f) => emp_violations(f@),
        _ => seq![],
    }
}

/// The manager check of an employee form, if it names a manager.
pub open spec fn mgr_checks(f: EmpForm) -> Seq<Check> {
    match f.mgr {
        Some(m) => seq![Check::EmployeeExists(m)],
        None => seq![],
    }
}

/// The integrity checks of each operation, in the order they are made.
pub open spec fn plan(op: Op) -> Seq<Check> {
    match op {
        Op::CreateDept(_) => seq![],
        Op::UpdateDept(d, _) => seq![Check::DepartmentExists(d)],
        Op::DeleteDept(d) => seq![Check::DepartmentExists(d), Check::HasDependentEmployees(d)],
        Op::CreateEmp(f) => seq![Check::DepartmentExists(f.deptno)] + mgr_checks(f),
        Op::UpdateEmp(e, f) => seq![Check::DepartmentExists(f.deptno), Check::EmployeeExists(e)]
            + mgr_checks(f),
        Op::DeleteEmp(e) => seq![Check::EmployeeExists(e), Check::IsReferencedAsManager(e)],
    }
}

/// Whether the `i`-th check of the operation looks up the record that the
/// operation addresses (update and delete), whose absence is a not-found
/// rather than a rejection.
pub open spec fn addressed(op: Op, i: int) -> bool {
    match op {
        Op::UpdateDept(_, _) | Op::DeleteDept(_) | Op::DeleteEmp(_) => i == 0,
        Op::UpdateEmp(_, _) => i == 1,
        _ => false,
    }
}

/// The detail of the rejection by a failed check.
pub open spec fn rejection_detail(c: Check) -> Seq<char> {
    match c {
        Check::DepartmentExists(d) => "deptno ["@ + decimal_text(d as int) + "] is not exists."@,
        Check::EmployeeExists(e) => "mgr(empno) ["@ + decimal_text(e as int) + "] is not exists."@,
        Check::HasDependentEmployees(d) => "deptno ["@ + decimal_text(d as int) + "] can not delete."@,
        Check::IsReferencedAsManager(e) => "empno ["@ + decimal_text(e as int) + "] can not delete."@,
    }
}

/// The error that ends the operation when its `i`-th check fails: not-found
/// for the record the operation addresses, else a rejection.
pub open spec fn rejection(op: Op, i: int) -> ErrorView {
    if addressed(op, i) {
        ErrorView::NotFound
    } else {
        ErrorView::UnprocessableEntity(rejection_detail(plan(op)[i]))
    }
}

/// What to do next.
#[derive(Debug)]
pub enum Step {
    /// Make this check and hand its answer back.
    Check(Check),
    /// All checks passed: perform the write.
    Persist,
    /// The operation ends with this error; nothing is written.
    Fail(ApiCustomError),
}

/// The mathematical value of a step.
pub enum StepView {
    Check(Check),
    Persist,
    Fail(ErrorView),
}

impl View for Step {
    type V = StepView;

    open spec fn view(&self) -> StepView {
        match self {
            Step::Check(c) => StepView::Check(*c),
            Step::Persist => StepView::Persist,
            Step::Fail(e) => StepView::Fail(e@),
        }
    }
}

/// Answers that a caller can have gathered: one per check made so far, all
/// but the last of them passing.
pub open spec fn answers_ok(op: Op, answers: Seq<bool>) -> bool {
    &&& answers.len() <= plan(op).len()
    &&& forall|i: int| 0 <= i < answers.len() - 1 ==> passes(#[trigger] plan(op)[i], answers[i])
}

/// The step after `answers`: validation first, then the rejection by a
/// failed last answer, then the next check, and the write once every check
/// has passed.
pub open spec fn step_of(op: Op, answers: Seq<bool>) -> StepView {
    let n = answers.len();
    if op_violations(op).len() > 0 {
        StepView::Fail(ErrorView::ValidationFailed(op_violations(op)))
    } else if n > 0 && !passes(plan(op)[n - 1], answers[n - 1]) {
        StepView::Fail(rejection(op, n - 1))
    } else if n < plan(op).len() {
        StepView::Check(plan(op)[n as int])
    } else {
        StepView::Persist
    }
}

/// The field rules of the operation, checked.
fn violations_of(op: &Op) -> (r: Vec<crate::validate::Violation>)
    ensures
        crate::validate::violations_view(r@) == op_violations(*op),
{
    match op {
        Op::CreateDept(f) => validate_dept(f),
        Op::UpdateDept(_, f) => validate_dept(f),
        Op::CreateEmp(f) => validate_emp(f),
        Op::UpdateEmp(_, f) => validate_emp(f),
        _ => {
            let r: Vec<crate::validate::Violation> = Vec::new();
            assert(crate::validate::violations_view(r@) =~= seq![]);
            r
        },
    }
}

/// The `i`-th check of the operation.
fn plan_at(op: &Op, i: usize) -> (r: Check)
    requires
        i < plan(*op).len(),
    ensures
        r == plan(*op)[i as int],
{
    match op {
        // Creating a department makes no check, so the precondition rules
        // this arm out.
        Op::CreateDept(_) => Check::DepartmentExists(0),
        Op::UpdateDept(d, _) => Check::DepartmentExists(*d),
        Op::DeleteDept(d) => if i == 0 {
            Check::DepartmentExists(*d)
        } else {
            Check::HasDependentEmployees(*d)
        },
        Op::CreateEmp(f) => if i == 0 {
            Check::DepartmentExists(f.deptno)
        } else {
            Check::EmployeeExists(f.mgr.unwrap())
        },
        Op::UpdateEmp(e, f) => if i == 0 {
            Check::DepartmentExists(f.deptno)
        } else if i == 1 {
            Check::EmployeeExists(*e)
        } else {
            Check::EmployeeExists(f.mgr.unwrap())
        },
        Op::DeleteEmp(e) => if i == 0 {
            Check::EmployeeExists(*e)
        } else {
            Check::IsReferencedAsManager(*e)
        },
    }
}

/// The number of checks of the operation.
fn plan_len(op: &Op) -> (r: usize)
    ensures
        r == plan(*op).len(),
{
    match op {
        Op::CreateDept(_) => 0,
        Op::UpdateDept(_, _) => 1,
        Op::DeleteDept(_) => 2,
        Op::CreateEmp(f) => if f.mgr.is_some() { 2 } else { 1 },
        Op::UpdateEmp(_, f) => if f.mgr.is_some() { 3 } else { 2 },
        Op::DeleteEmp(_) => 2,
    }
}

/// Builds `lead <n> tail`, with `n` in decimal.
fn with_number(lead: &str, n: i32, tail: &str) -> (r: String)
    ensures
        r@ == lead@ + decimal_text(n as int) + tail@,
{
    let digits = i32_text(n);
    String::from_str(lead).concat(digits.as_str()).concat(tail)
}

/// The rejection detail of a failed check.
fn detail_of(c: Check) -> (r: String)
    ensures
        r@ == rejection_detail(c),
{
    proof {
        reveal_strlit("deptno [");
    }
    match c {
        Check::DepartmentExists(d) => with_number("deptno [", d, "] is not exists."),
        Check::EmployeeExists(e) => with_number("mgr(empno) [", e, "] is not exists."),
        Check::HasDependentEmployees(d) => with_number("deptno [", d, "] can not delete."),
        Check::IsReferencedAsManager(e) => with_number("empno [", e, "] can not delete."),
    }
}

/// Whether the `i`-th of the operation's `total` checks looks up the record
/// that the operation addresses.
fn is_addressed(op: &Op, i: usize, total: usize) -> (r: bool)
    requires
        total == plan(*op).len(),
    ensures
        r == addressed(*op, i as int),
{
    match op {
        Op::UpdateDept(_, _) | Op::DeleteDept(_) | Op::DeleteEmp(_) => i == 0,
        Op::UpdateEmp(_, _) => i == 1,
        _ => false,
    }
}

/// Decides the next step of `op` from the answers to the checks made so
/// far (`answers[i]` answers the `i`-th check of the plan).
pub fn next_step(op: &Op, answers: &Vec<bool>) -> (r: Step)
    requires
        answers_ok(*op, answers@),
    ensures
        r@ == step_of(*op, answers@),
{
    let violations = violations_of(op);
    if violations.len() > 0 {
        return Step::Fail(ApiCustomError::ValidationFailed(violations));
    }
    let n = answers.len();
    let total = plan_len(op);
    if n > 0 {
        let c = plan_at(op, n - 1);
        let ok = match c {
            Check::DepartmentExists(_) | Check::EmployeeExists(_) => answers[n - 1],
            Check::HasDependentEmployees(_) | Check::IsReferencedAsManager(_) => !answers[n - 1],
        };
        if !ok {
            if is_addressed(op, n - 1, total) {
                return Step::Fail(ApiCustomError::NotFound);
            }
            return Step::Fail(ApiCustomError::UnprocessableEntity(detail_of(c)));
        }
    }
    if n < total {
        Step::Check(plan_at(op, n))
    } else {
        Step::Persist
    }
}

/// The status of a listing, which bypasses validation and the checks:
/// 204 (no content) when nothing is listed, else 200.
pub fn list_status(count: usize) -> (r: u16)
    ensures
        count == 0 ==> r == 204,
        count > 0 ==> r == 200,
{
    if count == 0 {
        204
    } else {
        200
    }
}

/// Interprets the number of rows a delete removed: none means the record
/// was already gone.
pub fn finish_delete(rows_affected: u64) -> (r: Result<(), ApiCustomError>)
    ensures
        rows_affected == 0 ==> r is Err && r->Err_0 == ApiCustomError::NotFound,
        rows_affected > 0 ==> r is Ok,
{
    if rows_affected == 0 {
        Err(ApiCustomError::NotFound)
    } else {
        Ok(())
    }
}

} // verus!
