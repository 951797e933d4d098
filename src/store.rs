//! A store held in memory. It answers the integrity checks, runs the
//! orchestration of `guard` for every write, and keeps the relational
//! invariants: every employee's department exists, every named manager
//! exists, and keys are unique and never reused.

use vstd::prelude::*;
use vstd::string::*;
use crate::entities::dept::{self, DeptForm, DeptView};
use crate::entities::emp::{self, hundredths_of, to_hundredths, EmpForm, EmpView};
use crate::validate::{amount_ok, emp_violations};
use crate::error::{ApiCustomError, ErrorView};
use crate::guard::{next_step, op_violations, passes, plan, rejection, step_of, Check, Op, Step};

verus! {

/// The largest key the store can assign.
pub const KEY_MAX: i32 = 2147483647;

/// The mathematical value of a store: its records in ascending key order,
/// and the last key assigned to each kind of record.
pub struct StoreView {
    pub depts: Seq<DeptView>,
    pub emps: Seq<EmpView>,
    pub last_deptno: i32,
    pub last_empno: i32,
}

impl StoreView {
    pub open spec fn has_dept(self, k: i32) -> bool {
        exists|i: int| 0 <= i < self.depts.len() && #[trigger] self.depts[i].deptno == k
    }

    pub open spec fn has_emp(self, k: i32) -> bool {
        exists|i: int| 0 <= i < self.emps.len() && #[trigger] self.emps[i].empno == k
    }

    /// Some employee belongs to department `d`.
    pub open spec fn dept_in_use(self, d: i32) -> bool {
        exists|i: int| 0 <= i < self.emps.len() && #[trigger] self.emps[i].deptno == d
    }

    /// Some employee other than `e` has `e` as manager.
    pub open spec fn mgr_in_use(self, e: i32) -> bool {
        exists|i: int|
            0 <= i < self.emps.len() && #[trigger] self.emps[i].mgr == Some(e) && self.emps[i].empno != e
    }

    /// The answer of the store to a check.
    pub open spec fn answer(self, c: Check) -> bool {
        match c {
            Check::DepartmentExists(d) => self.has_dept(d),
            Check::EmployeeExists(e) => self.has_emp(e),
            Check::HasDependentEmployees(d) => self.dept_in_use(d),
            Check::IsReferencedAsManager(e) => self.mgr_in_use(e),
        }
    }

    /// Keys ascend, lie in `(0, last]`, and the references between records
    /// hold.
    pub open spec fn wf(self) -> bool {
        &&& 0 <= self.last_deptno
        &&& 0 <= self.last_empno
        &&& forall|i: int, j: int|
            0 <= i < j < self.depts.len() ==> self.depts[i].deptno < self.depts[j].deptno
        &&& forall|i: int|
            0 <= i < self.depts.len() ==> 0 < #[trigger] self.depts[i].deptno <= self.last_deptno
        &&& forall|i: int, j: int|
            0 <= i < j < self.emps.len() ==> self.emps[i].empno < self.emps[j].empno
        &&& forall|i: int|
            0 <= i < self.emps.len() ==> 0 < #[trigger] self.emps[i].empno <= self.last_empno
        &&& forall|i: int| 0 <= i < self.emps.len() ==> self.has_dept(#[trigger] self.emps[i].deptno)
        &&& forall|i: int|
            0 <= i < self.emps.len() && (#[trigger] self.emps[i]).mgr is Some
                ==> self.has_emp(self.emps[i].mgr->Some_0)
    }

    /// The position of department `k`.
    pub open spec fn dept_index(self, k: i32) -> int {
        choose|i: int| 0 <= i < self.depts.len() && self.depts[i].deptno == k
    }

    /// The position of employee `k`.
    pub open spec fn emp_index(self, k: i32) -> int {
        choose|i: int| 0 <= i < self.emps.len() && self.emps[i].empno == k
    }

    /// Department `k`, if stored.
    pub open spec fn find_dept(self, k: i32) -> Option<DeptView> {
        if self.has_dept(k) {
            Some(self.depts[self.dept_index(k)])
        } else {
            None
        }
    }

    /// Employee `k`, if stored.
    pub open spec fn find_emp(self, k: i32) -> Option<EmpView> {
        if self.has_emp(k) {
            Some(self.emps[self.emp_index(k)])
        } else {
            None
        }
    }
}

/// The first failing check of the operation, from the `i`-th on.
pub open spec fn first_failed(op: Op, s: StoreView, i: int) -> Option<int>
    decreases plan(op).len() - i,
{
    if i < 0 || i >= plan(op).len() {
        None
    } else if !passes(plan(op)[i], s.answer(plan(op)[i])) {
        Some(i)
    } else {
        first_failed(op, s, i + 1)
    }
}

/// The error that validation and the integrity checks end the operation
/// with, or none when it may be persisted.
pub open spec fn outcome(op: Op, s: StoreView) -> Option<ErrorView> {
    if op_violations(op).len() > 0 {
        Some(ErrorView::ValidationFailed(op_violations(op)))
    } else {
        match first_failed(op, s, 0) {
            Some(k) => Some(rejection(op, k)),
            None => None,
        }
    }
}

pub open spec fn dept_keys_exhausted() -> Seq<char> {
    "no department number is left to assign"@
}

pub open spec fn emp_keys_exhausted() -> Seq<char> {
    "no employee number is left to assign"@
}

/// The department a form makes under key `deptno`.
pub open spec fn dept_record(deptno: i32, form: DeptForm) -> DeptView {
    DeptView { deptno, dname: form.dname@, loc: form.loc@ }
}

/// The employee a form makes under key `empno`, its amounts rounded to
/// hundredths.
pub open spec fn emp_record(empno: i32, form: EmpForm) -> EmpView {
    EmpView {
        empno,
        ename: form.ename@,
        job: form.job@,
        mgr: form.mgr,
        hiredate: form.hiredate,
        sal: hundredths_of(form.sal) as i64,
        comm: match form.comm {
            Some(c) => Some(hundredths_of(c) as i64),
            None => None,
        },
        deptno: form.deptno,
    }
}

pub open spec fn with_depts(s: StoreView, depts: Seq<DeptView>, last_deptno: i32) -> StoreView {
    StoreView { depts, emps: s.emps, last_deptno, last_empno: s.last_empno }
}

pub open spec fn with_emps(s: StoreView, emps: Seq<EmpView>, last_empno: i32) -> StoreView {
    StoreView { depts: s.depts, emps, last_deptno: s.last_deptno, last_empno }
}

/// Creating a department: after validation, the next key is assigned and
/// the record appended.
pub open spec fn create_dept_transition(s: StoreView, form: DeptForm) -> (StoreView, Result<DeptView, ErrorView>) {
    match outcome(Op::CreateDept(form), s) {
        Some(e) => (s, Err(e)),
        None => if s.last_deptno == KEY_MAX {
            (s, Err(ErrorView::StoreFailure(dept_keys_exhausted())))
        } else {
            let rec = dept_record((s.last_deptno + 1) as i32, form);
            (with_depts(s, s.depts.push(rec), rec.deptno), Ok(rec))
        },
    }
}

/// Updating department `deptno`: its fields are overwritten, its key kept.
pub open spec fn update_dept_transition(s: StoreView, deptno: i32, form: DeptForm) -> (StoreView, Result<DeptView, ErrorView>) {
    match outcome(Op::UpdateDept(deptno, form), s) {
        Some(e) => (s, Err(e)),
        None => {
            let rec = dept_record(deptno, form);
            (with_depts(s, s.depts.update(s.dept_index(deptno), rec), s.last_deptno), Ok(rec))
        },
    }
}

/// Deleting department `deptno`.
pub open spec fn delete_dept_transition(s: StoreView, deptno: i32) -> (StoreView, Result<(), ErrorView>) {
    match outcome(Op::DeleteDept(deptno), s) {
        Some(e) => (s, Err(e)),
        None => (with_depts(s, s.depts.remove(s.dept_index(deptno)), s.last_deptno), Ok(())),
    }
}

/// Creating an employee: after validation and the reference checks, the
/// next key is assigned and the record appended.
pub open spec fn create_emp_transition(s: StoreView, form: EmpForm) -> (StoreView, Result<EmpView, ErrorView>) {
    match outcome(Op::CreateEmp(form), s) {
        Some(e) => (s, Err(e)),
        None => if s.last_empno == KEY_MAX {
            (s, Err(ErrorView::StoreFailure(emp_keys_exhausted())))
        } else {
            let rec = emp_record((s.last_empno + 1) as i32, form);
            (with_emps(s, s.emps.push(rec), rec.empno), Ok(rec))
        },
    }
}

/// Updating employee `empno`: its fields are overwritten, its key kept.
pub open spec fn update_emp_transition(s: StoreView, empno: i32, form: EmpForm) -> (StoreView, Result<EmpView, ErrorView>) {
    match outcome(Op::UpdateEmp(empno, form), s) {
        Some(e) => (s, Err(e)),
        None => {
            let rec = emp_record(empno, form);
            (with_emps(s, s.emps.update(s.emp_index(empno), rec), s.last_empno), Ok(rec))
        },
    }
}

/// Deleting employee `empno`.
pub open spec fn delete_emp_transition(s: StoreView, empno: i32) -> (StoreView, Result<(), ErrorView>) {
    match outcome(Op::DeleteEmp(empno), s) {
        Some(e) => (s, Err(e)),
        None => (with_emps(s, s.emps.remove(s.emp_index(empno)), s.last_empno), Ok(())),
    }
}

pub open spec fn dept_result(r: Result<dept::Model, ApiCustomError>) -> Result<DeptView, ErrorView> {
    match r {
        Ok(m) => Ok(m@),
        Err(e) => Err(e@),
    }
}

pub open spec fn emp_result(r: Result<emp::Model, ApiCustomError>) -> Result<EmpView, ErrorView> {
    match r {
        Ok(m) => Ok(m@),
        Err(e) => Err(e@),
    }
}

pub open spec fn unit_result(r: Result<(), ApiCustomError>) -> Result<(), ErrorView> {
    match r {
        Ok(_) => Ok(()),
        Err(e) => Err(e@),
    }
}

/// Checks that pass from the `j`-th to the `k`-th leave the first failure
/// where it was.
proof fn lemma_first_failed_skip(op: Op, s: StoreView, j: int, k: int)
    requires
        0 <= j <= k <= plan(op).len(),
        forall|i: int| j <= i < k ==> passes(#[trigger] plan(op)[i], s.answer(plan(op)[i])),
    ensures
        first_failed(op, s, j) == first_failed(op, s, k),
    decreases k - j,
{
    if j < k {
        lemma_first_failed_skip(op, s, j + 1, k);
    }
}

/// With no failing check from the `j`-th on, every such check passes.
proof fn lemma_none_failed(op: Op, s: StoreView, j: int)
    requires
        0 <= j,
        first_failed(op, s, j) is None,
    ensures
        forall|i: int| j <= i < plan(op).len() ==> passes(#[trigger] plan(op)[i], s.answer(plan(op)[i])),
    decreases plan(op).len() - j,
{
    if j < plan(op).len() {
        lemma_none_failed(op, s, j + 1);
    }
}

/// Departments kept at their positions stay findable.
proof fn lemma_dept_keys_kept(s: StoreView, t: StoreView)
    requires
        s.depts.len() <= t.depts.len(),
        forall|i: int| 0 <= i < s.depts.len() ==> #[trigger] t.depts[i].deptno == s.depts[i].deptno,
    ensures
        forall|k: i32| s.has_dept(k) ==> t.has_dept(k),
{
    assert forall|k: i32| s.has_dept(k) implies t.has_dept(k) by {
        let w = choose|i: int| 0 <= i < s.depts.len() && #[trigger] s.depts[i].deptno == k;
        assert(t.depts[w].deptno == k);
    }
}

/// Employees kept at their positions stay findable.
proof fn lemma_emp_keys_kept(s: StoreView, t: StoreView)
    requires
        s.emps.len() <= t.emps.len(),
        forall|i: int| 0 <= i < s.emps.len() ==> #[trigger] t.emps[i].empno == s.emps[i].empno,
    ensures
        forall|k: i32| s.has_emp(k) ==> t.has_emp(k),
{
    assert forall|k: i32| s.has_emp(k) implies t.has_emp(k) by {
        let w = choose|i: int| 0 <= i < s.emps.len() && #[trigger] s.emps[i].empno == k;
        assert(t.emps[w].empno == k);
    }
}

/// Removing one department leaves every other one findable.
proof fn lemma_dept_removed(s: StoreView, idx: int)
    requires
        0 <= idx < s.depts.len(),
    ensures
        forall|k: i32| s.has_dept(k) && k != s.depts[idx].deptno
            ==> (#[trigger] with_depts(s, s.depts.remove(idx), s.last_deptno).has_dept(k)),
{
    let t = with_depts(s, s.depts.remove(idx), s.last_deptno);
    assert forall|k: i32| s.has_dept(k) && k != s.depts[idx].deptno implies t.has_dept(k) by {
        let w = choose|i: int| 0 <= i < s.depts.len() && #[trigger] s.depts[i].deptno == k;
        if w < idx {
            assert(t.depts[w].deptno == k);
        } else {
            assert(t.depts[w - 1].deptno == k);
        }
    }
}

/// Removing one employee leaves every other one findable.
proof fn lemma_emp_removed(s: StoreView, idx: int)
    requires
        0 <= idx < s.emps.len(),
    ensures
        forall|k: i32| s.has_emp(k) && k != s.emps[idx].empno
            ==> (#[trigger] with_emps(s, s.emps.remove(idx), s.last_empno).has_emp(k)),
{
    let t = with_emps(s, s.emps.remove(idx), s.last_empno);
    assert forall|k: i32| s.has_emp(k) && k != s.emps[idx].empno implies t.has_emp(k) by {
        let w = choose|i: int| 0 <= i < s.emps.len() && #[trigger] s.emps[i].empno == k;
        if w < idx {
            assert(t.emps[w].empno == k);
        } else {
            assert(t.emps[w - 1].empno == k);
        }
    }
}

/// The amounts of a valid form, rounded to hundredths.
fn rounded_amounts(form: &EmpForm) -> (r: (i64, Option<i64>))
    requires
        emp_violations(form@).len() == 0,
    ensures
        r.0 == hundredths_of(form.sal),
        r.1 == match form.comm {
            Some(c) => Some(hundredths_of(c) as i64),
            None => None::<i64>,
        },
{
    assert(amount_ok(form.sal));
    let sal = to_hundredths(form.sal);
    let comm = match form.comm {
        Some(c) => {
            assert(amount_ok(c));
            Some(to_hundredths(c))
        },
        None => None,
    };
    (sal, comm)
}

/// A store in memory.
pub struct MemoryStore {
    depts: Vec<dept::Model>,
    emps: Vec<emp::Model>,
    last_deptno: i32,
    last_empno: i32,
}

impl View for MemoryStore {
    type V = StoreView;

    closed spec fn view(&self) -> StoreView {
        StoreView {
            depts: self.depts@.map_values(|m: dept::Model| m@),
            emps: self.emps@.map_values(|m: emp::Model| m@),
            last_deptno: self.last_deptno,
            last_empno: self.last_empno,
        }
    }
}

impl MemoryStore {
    /// An empty store.
    pub fn new() -> (r: MemoryStore)
        ensures
            r@.wf(),
            r@.depts.len() == 0,
            r@.emps.len() == 0,
            r@.last_deptno == 0,
            r@.last_empno == 0,
    {
        let r = MemoryStore { depts: Vec::new(), emps: Vec::new(), last_deptno: 0, last_empno: 0 };
        assert(r@.depts =~= Seq::<DeptView>::empty());
        assert(r@.emps =~= Seq::<EmpView>::empty());
        r
    }

    /// The position of department `k`, if stored.
    fn dept_position(&self, k: i32) -> (r: Option<usize>)
        requires
            self@.wf(),
        ensures
            match r {
                Some(i) => i < self@.depts.len() && self@.depts[i as int].deptno == k
                    && self@.dept_index(k) == i,
                None => !self@.has_dept(k),
            },
    {
        let mut i: usize = 0;
        while i < self.depts.len()
            invariant
                self@.wf(),
                i <= self.depts@.len(),
                forall|j: int| 0 <= j < i ==> self@.depts[j].deptno != k,
            decreases self.depts@.len() - i,
        {
            if self.depts[i].deptno == k {
                assert(self@.depts[i as int].deptno == k);
                assert(self@.dept_index(k) == i) by {
                    let c = self@.dept_index(k);
                    assert(0 <= c < self@.depts.len() && self@.depts[c].deptno == k);
                    if c < i {
                    } else if c > i {
                        assert(self@.depts[i as int].deptno < self@.depts[c].deptno);
                    }
                }
                return Some(i);
            }
            i = i + 1;
        }
        None
    }

    /// The position of employee `k`, if stored.
    fn emp_position(&self, k: i32) -> (r: Option<usize>)
        requires
            self@.wf(),
        ensures
            match r {
                Some(i) => i < self@.emps.len() && self@.emps[i as int].empno == k
                    && self@.emp_index(k) == i,
                None => !self@.has_emp(k),
            },
    {
        let mut i: usize = 0;
        while i < self.emps.len()
            invariant
                self@.wf(),
                i <= self.emps@.len(),
                forall|j: int| 0 <= j < i ==> self@.emps[j].empno != k,
            decreases self.emps@.len() - i,
        {
            if self.emps[i].empno == k {
                assert(self@.emps[i as int].empno == k);
                assert(self@.emp_index(k) == i) by {
                    let c = self@.emp_index(k);
                    assert(0 <= c < self@.emps.len() && self@.emps[c].empno == k);
                    if c < i {
                    } else if c > i {
                        assert(self@.emps[i as int].empno < self@.emps[c].empno);
                    }
                }
                return Some(i);
            }
            i = i + 1;
        }
        None
    }

    /// Whether department `deptno` is stored.
    pub fn department_exists(&self, deptno: i32) -> (r: bool)
        requires
            self@.wf(),
        ensures
            r == self@.has_dept(deptno),
    {
        self.dept_position(deptno).is_some()
    }

    /// Whether employee `empno` is stored.
    pub fn employee_exists(&self, empno: i32) -> (r: bool)
        requires
            self@.wf(),
        ensures
            r == self@.has_emp(empno),
    {
        self.emp_position(empno).is_some()
    }

    /// Whether any employee belongs to department `deptno`.
    pub fn has_dependent_employees(&self, deptno: i32) -> (r: bool)
        ensures
            r == self@.dept_in_use(deptno),
    {
        let mut i: usize = 0;
        while i < self.emps.len()
            invariant
                i <= self.emps@.len(),
                forall|j: int| 0 <= j < i ==> self@.emps[j].deptno != deptno,
            decreases self.emps@.len() - i,
        {
            if self.emps[i].deptno == deptno {
                assert(self@.emps[i as int].deptno == deptno);
                return true;
            }
            i = i + 1;
        }
        false
    }

    /// Whether any employee other than `empno` has it as manager.
    pub fn is_referenced_as_manager(&self, empno: i32) -> (r: bool)
        ensures
            r == self@.mgr_in_use(empno),
    {
        let mut i: usize = 0;
        while i < self.emps.len()
            invariant
                i <= self.emps@.len(),
                forall|j: int|
                    0 <= j < i ==> !(self@.emps[j].mgr == Some(empno) && self@.emps[j].empno != empno),
            decreases self.emps@.len() - i,
        {
            if self.emps[i].mgr == Some(empno) && self.emps[i].empno != empno {
                assert(self@.emps[i as int].mgr == Some(empno));
                return true;
            }
            i = i + 1;
        }
        false
    }

    /// Answers a check.
    pub fn answer(&self, c: Check) -> (r: bool)
        requires
            self@.wf(),
        ensures
            r == self@.answer(c),
    {
        match c {
            Check::DepartmentExists(d) => self.department_exists(d),
            Check::EmployeeExists(e) => self.employee_exists(e),
            Check::HasDependentEmployees(d) => self.has_dependent_employees(d),
            Check::IsReferencedAsManager(e) => self.is_referenced_as_manager(e),
        }
    }

    /// Runs validation and the integrity checks of `op`, in order, stopping
    /// at the first failure.
    fn run_checks(&self, op: &Op) -> (r: Option<ApiCustomError>)
        requires
            self@.wf(),
        ensures
            match r {
                Some(e) => outcome(*op, self@) == Some(e@),
                None => outcome(*op, self@) is None,
            },
    {
        let ghost s = self@;
        let ghost p = plan(*op);
        let mut answers: Vec<bool> = Vec::new();
        loop
            invariant
                s == self@,
                s.wf(),
                p == plan(*op),
                answers@.len() <= p.len(),
                forall|i: int| 0 <= i < answers@.len() ==> answers@[i] == s.answer(#[trigger] p[i]),
                forall|i: int| 0 <= i < answers@.len() - 1 ==> passes(#[trigger] p[i], answers@[i]),
                answers@.len() > 0 ==> op_violations(*op).len() == 0,
            decreases p.len() - answers@.len(),
        {
            let step = next_step(op, &answers);
            match step {
                Step::Check(c) => {
                    let a = self.answer(c);
                    answers.push(a);
                },
                Step::Persist => {
                    proof {
                        lemma_first_failed_skip(*op, s, 0, answers@.len() as int);
                    }
                    return None;
                },
                Step::Fail(e) => {
                    proof {
                        if op_violations(*op).len() == 0 {
                            lemma_first_failed_skip(*op, s, 0, answers@.len() - 1);
                        }
                    }
                    return Some(e);
                },
            }
        }
    }
    /// Department `deptno`, or not-found.
    pub fn get_dept(&self, deptno: i32) -> (r: Result<dept::Model, ApiCustomError>)
        requires
            self@.wf(),
        ensures
            match self@.find_dept(deptno) {
                Some(d) => r is Ok && r->Ok_0@ == d,
                None => r is Err && r->Err_0 == ApiCustomError::NotFound,
            },
    {
        match self.dept_position(deptno) {
            Some(i) => Ok(self.depts[i].duplicate()),
            None => Err(ApiCustomError::NotFound),
        }
    }

    /// Employee `empno`, or not-found.
    pub fn get_emp(&self, empno: i32) -> (r: Result<emp::Model, ApiCustomError>)
        requires
            self@.wf(),
        ensures
            match self@.find_emp(empno) {
                Some(e) => r is Ok && r->Ok_0@ == e,
                None => r is Err && r->Err_0 == ApiCustomError::NotFound,
            },
    {
        match self.emp_position(empno) {
            Some(i) => Ok(self.emps[i].duplicate()),
            None => Err(ApiCustomError::NotFound),
        }
    }

    /// Every department, in ascending `deptno` order.
    pub fn get_dept_all(&self) -> (r: Vec<dept::Model>)
        requires
            self@.wf(),
        ensures
            r@.map_values(|m: dept::Model| m@) == self@.depts,
            forall|i: int, j: int| 0 <= i < j < r@.len() ==> r@[i].deptno < r@[j].deptno,
    {
        let mut out: Vec<dept::Model> = Vec::new();
        let mut i: usize = 0;
        while i < self.depts.len()
            invariant
                self@.wf(),
                i <= self.depts@.len(),
                out@.len() == i,
                forall|j: int| 0 <= j < i ==> (#[trigger] out@[j])@ == self.depts@[j]@,
            decreases self.depts@.len() - i,
        {
            out.push(self.depts[i].duplicate());
            i = i + 1;
        }
        assert(out@.map_values(|m: dept::Model| m@) =~= self@.depts);
        assert forall|i: int, j: int| 0 <= i < j < out@.len() implies out@[i].deptno < out@[j].deptno by {
            assert(out@[i]@ == self@.depts[i] && out@[j]@ == self@.depts[j]);
        }
        out
    }

    /// Every employee, in ascending `empno` order.
    pub fn get_emp_all(&self) -> (r: Vec<emp::Model>)
        requires
            self@.wf(),
        ensures
            r@.map_values(|m: emp::Model| m@) == self@.emps,
            forall|i: int, j: int| 0 <= i < j < r@.len() ==> r@[i].empno < r@[j].empno,
    {
        let mut out: Vec<emp::Model> = Vec::new();
        let mut i: usize = 0;
        while i < self.emps.len()
            invariant
                self@.wf(),
                i <= self.emps@.len(),
                out@.len() == i,
                forall|j: int| 0 <= j < i ==> (#[trigger] out@[j])@ == self.emps@[j]@,
            decreases self.emps@.len() - i,
        {
            out.push(self.emps[i].duplicate());
            i = i + 1;
        }
        assert(out@.map_values(|m: emp::Model| m@) =~= self@.emps);
        assert forall|i: int, j: int| 0 <= i < j < out@.len() implies out@[i].empno < out@[j].empno by {
            assert(out@[i]@ == self@.emps[i] && out@[j]@ == self@.emps[j]);
        }
        out
    }

    /// Creates a department from a valid form under the next key.
    pub fn create_dept(&mut self, form: DeptForm) -> (r: Result<dept::Model, ApiCustomError>)
        requires
            old(self)@.wf(),
        ensures
            final(self)@.wf(),
            (final(self)@, dept_result(r)) == create_dept_transition(old(self)@, form),
    {
        let ghost s = self@;
        let op = Op::CreateDept(form);
        if let Some(e) = self.run_checks(&op) {
            return Err(e);
        }
        let form = match op {
            Op::CreateDept(f) => f,
            _ => {
                return Err(ApiCustomError::NotFound);
            },
        };
        if self.last_deptno == KEY_MAX {
            return Err(ApiCustomError::StoreFailure(String::from_str("no department number is left to assign")));
        }
        let deptno = self.last_deptno + 1;
        let rec = dept::Model { deptno, dname: form.dname, loc: form.loc };
        let r = rec.duplicate();
        self.depts.push(rec);
        self.last_deptno = deptno;
        proof {
            let t = self@;
            assert(t.depts =~= s.depts.push(r@));
            assert(t.emps =~= s.emps);
            lemma_dept_keys_kept(s, t);
        }
        Ok(r)
    }

    /// Overwrites the name and location of department `deptno`.
    pub fn update_dept(&mut self, deptno: i32, form: DeptForm) -> (r: Result<dept::Model, ApiCustomError>)
        requires
            old(self)@.wf(),
        ensures
            final(self)@.wf(),
            (final(self)@, dept_result(r)) == update_dept_transition(old(self)@, deptno, form),
    {
        let ghost s = self@;
        let op = Op::UpdateDept(deptno, form);
        if let Some(e) = self.run_checks(&op) {
            return Err(e);
        }
        proof {
            lemma_none_failed(op, s, 0);
            assert(passes(plan(op)[0], s.answer(plan(op)[0])));
        }
        let form = match op {
            Op::UpdateDept(_, f) => f,
            _ => {
                return Err(ApiCustomError::NotFound);
            },
        };
        let idx = match self.dept_position(deptno) {
            Some(i) => i,
            None => {
                return Err(ApiCustomError::NotFound);
            },
        };
        let rec = dept::Model { deptno, dname: form.dname, loc: form.loc };
        let r = rec.duplicate();
        self.depts.set(idx, rec);
        proof {
            let t = self@;
            assert(t.depts =~= s.depts.update(idx as int, r@));
            assert(t.emps =~= s.emps);
            lemma_dept_keys_kept(s, t);
        }
        Ok(r)
    }

    /// Deletes department `deptno` when no employee belongs to it.
    pub fn delete_dept(&mut self, deptno: i32) -> (r: Result<(), ApiCustomError>)
        requires
            old(self)@.wf(),
        ensures
            final(self)@.wf(),
            (final(self)@, unit_result(r)) == delete_dept_transition(old(self)@, deptno),
    {
        let ghost s = self@;
        let op = Op::DeleteDept(deptno);
        if let Some(e) = self.run_checks(&op) {
            return Err(e);
        }
        proof {
            lemma_none_failed(op, s, 0);
            assert(passes(plan(op)[0], s.answer(plan(op)[0])));
            assert(passes(plan(op)[1], s.answer(plan(op)[1])));
        }
        let idx = match self.dept_position(deptno) {
            Some(i) => i,
            None => {
                return Err(ApiCustomError::NotFound);
            },
        };
        self.depts.remove(idx);
        proof {
            let t = self@;
            assert(t.depts =~= s.depts.remove(idx as int));
            assert(t.emps =~= s.emps);
            lemma_dept_removed(s, idx as int);
            assert(t == with_depts(s, s.depts.remove(idx as int), s.last_deptno));
            assert forall|i: int| 0 <= i < t.emps.len() implies t.has_dept(#[trigger] t.emps[i].deptno) by {
                assert(s.has_dept(s.emps[i].deptno));
                if s.emps[i].deptno == deptno {
                    assert(s.dept_in_use(deptno));
                }
            }
        }
        Ok(())
    }

    /// Creates an employee from a valid form under the next key, when its
    /// department and its manager (if any) exist.
    pub fn create_emp(&mut self, form: EmpForm) -> (r: Result<emp::Model, ApiCustomError>)
        requires
            old(self)@.wf(),
        ensures
            final(self)@.wf(),
            (final(self)@, emp_result(r)) == create_emp_transition(old(self)@, form),
    {
        let ghost s = self@;
        let op = Op::CreateEmp(form);
        if let Some(e) = self.run_checks(&op) {
            return Err(e);
        }
        proof {
            lemma_none_failed(op, s, 0);
            assert(passes(plan(op)[0], s.answer(plan(op)[0])));
            if form.mgr is Some {
                assert(passes(plan(op)[1], s.answer(plan(op)[1])));
            }
        }
        let form = match op {
            Op::CreateEmp(f) => f,
            _ => {
                return Err(ApiCustomError::NotFound);
            },
        };
        if self.last_empno == KEY_MAX {
            return Err(ApiCustomError::StoreFailure(String::from_str("no employee number is left to assign")));
        }
        let empno = self.last_empno + 1;
        let (sal, comm) = rounded_amounts(&form);
        let rec = emp::Model {
            empno,
            ename: form.ename,
            job: form.job,
            mgr: form.mgr,
            hiredate: form.hiredate,
            sal,
            comm,
            deptno: form.deptno,
        };
        let r = rec.duplicate();
        self.emps.push(rec);
        self.last_empno = empno;
        proof {
            let t = self@;
            assert(t.emps =~= s.emps.push(r@));
            assert(t.depts =~= s.depts);
            lemma_emp_keys_kept(s, t);
            lemma_dept_keys_kept(s, t);
        }
        Ok(r)
    }

    /// Overwrites the fields of employee `empno`, when the department and
    /// the manager (if any) the form names exist.
    pub fn update_emp(&mut self, empno: i32, form: EmpForm) -> (r: Result<emp::Model, ApiCustomError>)
        requires
            old(self)@.wf(),
        ensures
            final(self)@.wf(),
            (final(self)@, emp_result(r)) == update_emp_transition(old(self)@, empno, form),
    {
        let ghost s = self@;
        let op = Op::UpdateEmp(empno, form);
        if let Some(e) = self.run_checks(&op) {
            return Err(e);
        }
        proof {
            lemma_none_failed(op, s, 0);
            assert(passes(plan(op)[0], s.answer(plan(op)[0])));
            assert(passes(plan(op)[1], s.answer(plan(op)[1])));
            if form.mgr is Some {
                assert(passes(plan(op)[2], s.answer(plan(op)[2])));
            }
        }
        let form = match op {
            Op::UpdateEmp(_, f) => f,
            _ => {
                return Err(ApiCustomError::NotFound);
            },
        };
        let idx = match self.emp_position(empno) {
            Some(i) => i,
            None => {
                return Err(ApiCustomError::NotFound);
            },
        };
        let (sal, comm) = rounded_amounts(&form);
        let rec = emp::Model {
            empno,
            ename: form.ename,
            job: form.job,
            mgr: form.mgr,
            hiredate: form.hiredate,
            sal,
            comm,
            deptno: form.deptno,
        };
        let r = rec.duplicate();
        self.emps.set(idx, rec);
        proof {
            let t = self@;
            assert(t.emps =~= s.emps.update(idx as int, r@));
            assert(t.depts =~= s.depts);
            lemma_emp_keys_kept(s, t);
            lemma_dept_keys_kept(s, t);
        }
        Ok(r)
    }

    /// Deletes employee `empno` when no other employee has it as manager.
    pub fn delete_emp(&mut self, empno: i32) -> (r: Result<(), ApiCustomError>)
        requires
            old(self)@.wf(),
        ensures
            final(self)@.wf(),
            (final(self)@, unit_result(r)) == delete_emp_transition(old(self)@, empno),
    {
        let ghost s = self@;
        let op = Op::DeleteEmp(empno);
        if let Some(e) = self.run_checks(&op) {
            return Err(e);
        }
        proof {
            lemma_none_failed(op, s, 0);
            assert(passes(plan(op)[0], s.answer(plan(op)[0])));
            assert(passes(plan(op)[1], s.answer(plan(op)[1])));
        }
        let idx = match self.emp_position(empno) {
            Some(i) => i,
            None => {
                return Err(ApiCustomError::NotFound);
            },
        };
        self.emps.remove(idx);
        proof {
            let t = self@;
            assert(t.emps =~= s.emps.remove(idx as int));
            assert(t.depts =~= s.depts);
            lemma_emp_removed(s, idx as int);
            assert(t == with_emps(s, s.emps.remove(idx as int), s.last_empno));
            assert forall|i: int| 0 <= i < t.emps.len() && (#[trigger] t.emps[i]).mgr is Some
                implies t.has_emp(t.emps[i].mgr->Some_0) by {
                let j = if i < idx { i } else { i + 1 };
                assert(t.emps[i] == s.emps[j]);
                assert(s.has_emp(s.emps[j].mgr->Some_0));
                if s.emps[j].mgr == Some(empno) {
                    assert(s.mgr_in_use(empno));
                }
            }
            assert forall|i: int| 0 <= i < t.emps.len() implies t.has_dept(#[trigger] t.emps[i].deptno) by {
                let j = if i < idx { i } else { i + 1 };
                assert(t.emps[i] == s.emps[j]);
                assert(s.has_dept(s.emps[j].deptno));
            }
        }
        Ok(())
    }
}

} // verus!
