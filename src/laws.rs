//! What holds of every store: the integrity rules, round trips and
//! not-found on absent keys, proved over the transitions of `store`.

use vstd::prelude::*;
use crate::entities::dept::DeptForm;
use crate::entities::emp::EmpForm;
use crate::error::ErrorView;
use crate::guard::{plan, rejection_detail, Check, Op};
use crate::store::{
    create_dept_transition, create_emp_transition, delete_dept_transition, delete_emp_transition, emp_record, first_failed,
    StoreView, KEY_MAX,
};
use crate::validate::{dept_violations, emp_violations};

verus! {

/// A valid department form is always created (while keys remain), under a
/// `deptno` that was not in use; reading that `deptno` afterwards gives the
/// record back, with the form's name and location.
pub proof fn created_dept_is_new_and_reads_back(s: StoreView, form: DeptForm)
    requires
        s.wf(),
        dept_violations(form@).len() == 0,
        s.last_deptno < KEY_MAX,
    ensures
        ({
            let (t, r) = create_dept_transition(s, form);
            &&& r is Ok
            &&& !s.has_dept(r->Ok_0.deptno)
            &&& t.find_dept(r->Ok_0.deptno) == Some(r->Ok_0)
            &&& r->Ok_0.dname == form.dname@
            &&& r->Ok_0.loc == form.loc@
        }),
{
    let (t, r) = create_dept_transition(s, form);
    let rec = r->Ok_0;
    let n = s.depts.len() as int;
    assert(t.depts[n] == rec);
    assert(t.has_dept(rec.deptno));
    let c = t.dept_index(rec.deptno);
    if c < n {
        assert(s.depts[c].deptno == rec.deptno);
    }
    if s.has_dept(rec.deptno) {
        let w = choose|i: int| 0 <= i < s.depts.len() && #[trigger] s.depts[i].deptno == rec.deptno;
        assert(s.depts[w].deptno <= s.last_deptno);
    }
}

/// An employee that was created reads back, field for field, as the record
/// that the creation returned, which holds the form's fields under a key
/// that was not in use.
pub proof fn created_emp_reads_back(s: StoreView, form: EmpForm)
    requires
        s.wf(),
        create_emp_transition(s, form).1 is Ok,
    ensures
        ({
            let (t, r) = create_emp_transition(s, form);
            &&& !s.has_emp(r->Ok_0.empno)
            &&& r->Ok_0 == emp_record(r->Ok_0.empno, form)
            &&& t.find_emp(r->Ok_0.empno) == Some(r->Ok_0)
        }),
{
    let (t, r) = create_emp_transition(s, form);
    let rec = r->Ok_0;
    let n = s.emps.len() as int;
    assert(t.emps[n] == rec);
    assert(t.has_emp(rec.empno));
    let c = t.emp_index(rec.empno);
    if c < n {
        assert(s.emps[c].empno == rec.empno);
    }
    if s.has_emp(rec.empno) {
        let w = choose|i: int| 0 <= i < s.emps.len() && #[trigger] s.emps[i].empno == rec.empno;
        assert(s.emps[w].empno <= s.last_empno);
    }
}

/// Creating a valid employee form whose department does not exist is
/// rejected as unprocessable, and the store is left as it was.
pub proof fn create_emp_without_dept_is_rejected(s: StoreView, form: EmpForm)
    requires
        s.wf(),
        emp_violations(form@).len() == 0,
        !s.has_dept(form.deptno),
    ensures
        ({
            let (t, r) = create_emp_transition(s, form);
            &&& t == s
            &&& r == Err::<crate::entities::emp::EmpView, ErrorView>(
                ErrorView::UnprocessableEntity(rejection_detail(Check::DepartmentExists(form.deptno))))
        }),
{
    let op = Op::CreateEmp(form);
    assert(plan(op)[0] == Check::DepartmentExists(form.deptno));
    assert(first_failed(op, s, 0) == Some(0int));
}

/// Creating a valid employee form whose manager does not exist is rejected
/// as unprocessable, and the store is left as it was.
pub proof fn create_emp_without_mgr_is_rejected(s: StoreView, form: EmpForm)
    requires
        s.wf(),
        emp_violations(form@).len() == 0,
        form.mgr is Some,
        !s.has_emp(form.mgr->Some_0),
    ensures
        ({
            let (t, r) = create_emp_transition(s, form);
            &&& t == s
            &&& r is Err
            &&& r->Err_0 is UnprocessableEntity
        }),
{
    let op = Op::CreateEmp(form);
    assert(plan(op)[0] == Check::DepartmentExists(form.deptno));
    assert(plan(op)[1] == Check::EmployeeExists(form.mgr->Some_0));
    if s.has_dept(form.deptno) {
        assert(first_failed(op, s, 1) == Some(1int));
        assert(first_failed(op, s, 0) == Some(1int));
    } else {
        assert(first_failed(op, s, 0) == Some(0int));
    }
}

/// Deleting an existing department is rejected as unprocessable exactly
/// when some employee belongs to it, leaving the store as it was;
/// otherwise it succeeds.
pub proof fn delete_dept_in_use_is_rejected(s: StoreView, deptno: i32)
    requires
        s.wf(),
        s.has_dept(deptno),
    ensures
        ({
            let (t, r) = delete_dept_transition(s, deptno);
            &&& s.dept_in_use(deptno) ==> t == s && r == Err::<(), ErrorView>(
                ErrorView::UnprocessableEntity(rejection_detail(Check::HasDependentEmployees(deptno))))
            &&& !s.dept_in_use(deptno) ==> r is Ok
        }),
{
    let op = Op::DeleteDept(deptno);
    assert(plan(op)[0] == Check::DepartmentExists(deptno));
    assert(plan(op)[1] == Check::HasDependentEmployees(deptno));
    assert(first_failed(op, s, 2) is None);
    if s.dept_in_use(deptno) {
        assert(first_failed(op, s, 1) == Some(1int));
    } else {
        assert(first_failed(op, s, 1) is None);
    }
}

/// Deleting an employee that some employee has as manager is rejected as
/// unprocessable, leaving the store as it was; deleting an existing
/// employee that nobody has as manager succeeds.
pub proof fn delete_emp_referenced_is_rejected(s: StoreView, empno: i32)
    requires
        s.wf(),
    ensures
        ({
            let (t, r) = delete_emp_transition(s, empno);
            &&& s.mgr_in_use(empno) ==> t == s && r == Err::<(), ErrorView>(
                ErrorView::UnprocessableEntity(rejection_detail(Check::IsReferencedAsManager(empno))))
            &&& s.has_emp(empno) && !s.mgr_in_use(empno) ==> r is Ok
        }),
{
    let op = Op::DeleteEmp(empno);
    assert(plan(op)[0] == Check::EmployeeExists(empno));
    assert(plan(op)[1] == Check::IsReferencedAsManager(empno));
    assert(first_failed(op, s, 2) is None);
    if s.mgr_in_use(empno) {
        let w = choose|i: int| 0 <= i < s.emps.len() && #[trigger] s.emps[i].mgr == Some(empno);
        assert(s.has_emp(s.emps[w].mgr->Some_0));
        assert(first_failed(op, s, 1) == Some(1int));
    } else if s.has_emp(empno) {
        assert(first_failed(op, s, 1) is None);
    }
}

/// Deleting a department that does not exist is a not-found, never a
/// rejection, and leaves the store as it was.
pub proof fn delete_absent_dept_is_not_found(s: StoreView, deptno: i32)
    requires
        s.wf(),
        !s.has_dept(deptno),
    ensures
        delete_dept_transition(s, deptno) == (s, Err::<(), ErrorView>(ErrorView::NotFound)),
{
    let op = Op::DeleteDept(deptno);
    assert(plan(op)[0] == Check::DepartmentExists(deptno));
    assert(first_failed(op, s, 0) == Some(0int));
}

/// Deleting an employee that does not exist is a not-found, never a
/// rejection, and leaves the store as it was.
pub proof fn delete_absent_emp_is_not_found(s: StoreView, empno: i32)
    requires
        s.wf(),
        !s.has_emp(empno),
    ensures
        delete_emp_transition(s, empno) == (s, Err::<(), ErrorView>(ErrorView::NotFound)),
{
    let op = Op::DeleteEmp(empno);
    assert(plan(op)[0] == Check::EmployeeExists(empno));
    assert(first_failed(op, s, 0) == Some(0int));
}

} // verus!
