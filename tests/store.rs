use dept_emp::entities::dept::DeptForm;
use dept_emp::entities::emp::{Date, EmpForm};
use dept_emp::error::ApiCustomError;
use dept_emp::store::MemoryStore;

fn dept_form(dname: &str, loc: &str) -> DeptForm {
    DeptForm { dname: dname.to_string(), loc: loc.to_string() }
}

fn emp_form(ename: &str, mgr: Option<i32>, deptno: i32) -> EmpForm {
    EmpForm {
        ename: ename.to_string(),
        job: "CLERK".to_string(),
        mgr,
        hiredate: Date { year: 2020, month: 1, day: 1 },
        sal: 800_000_000,
        comm: None,
        deptno,
    }
}

fn detail(e: &ApiCustomError) -> String {
    match e {
        ApiCustomError::UnprocessableEntity(d) => d.clone(),
        other => panic!("expected a rejection, got {:?}", other),
    }
}

#[test]
fn scenario_sales_department_lifecycle() {
    let mut store = MemoryStore::new();
    let dept = store.create_dept(dept_form("SALES", "NYC")).unwrap();
    assert_eq!(dept.deptno, 1);
    assert_eq!(dept.dname, "SALES");
    assert_eq!(dept.loc, "NYC");
    let emp = store.create_emp(emp_form("SMITH", None, 1)).unwrap();
    assert_eq!(emp.ename, "SMITH");
    assert_eq!(emp.sal, 80000);
    let err = store.delete_dept(1).unwrap_err();
    assert_eq!(err.status_code(), 422);
    assert_eq!(detail(&err), "deptno [1] can not delete.");
    assert!(store.delete_emp(emp.empno).is_ok());
    assert!(store.delete_dept(1).is_ok());
    assert!(store.get_dept_all().is_empty());
}

#[test]
fn scenario_get_never_created_dept() {
    let store = MemoryStore::new();
    let err = store.get_dept(999).unwrap_err();
    assert!(matches!(err, ApiCustomError::NotFound));
    let resp = err.error_response();
    assert_eq!(resp.status, 404);
    assert_eq!(resp.message, "Not Found.");
}

#[test]
fn created_depts_get_fresh_numbers_and_read_back() {
    let mut store = MemoryStore::new();
    let a = store.create_dept(dept_form("ACCOUNTING", "NEW YORK")).unwrap();
    let b = store.create_dept(dept_form("RESEARCH", "DALLAS")).unwrap();
    assert_ne!(a.deptno, b.deptno);
    let read = store.get_dept(b.deptno).unwrap();
    assert_eq!(read.deptno, b.deptno);
    assert_eq!(read.dname, "RESEARCH");
    assert_eq!(read.loc, "DALLAS");
    store.delete_dept(b.deptno).unwrap();
    let c = store.create_dept(dept_form("OPERATIONS", "BOSTON")).unwrap();
    assert_eq!(c.deptno, 3);
    let all = store.get_dept_all();
    assert_eq!(all.len(), 2);
    assert_eq!(all[0].deptno, 1);
    assert_eq!(all[1].deptno, 3);
}

#[test]
fn create_emp_with_missing_dept_is_rejected_and_nothing_stored() {
    let mut store = MemoryStore::new();
    let err = store.create_emp(emp_form("SMITH", None, 5)).unwrap_err();
    assert_eq!(err.status_code(), 422);
    assert_eq!(detail(&err), "deptno [5] is not exists.");
    assert!(store.get_emp_all().is_empty());
    let err = store.create_emp(emp_form("SMITH", None, -3)).unwrap_err();
    assert_eq!(err.error_response().message, "deptno [-3] is not exists.");
}

#[test]
fn create_emp_with_missing_mgr_is_rejected_and_nothing_stored() {
    let mut store = MemoryStore::new();
    store.create_dept(dept_form("SALES", "NYC")).unwrap();
    let err = store.create_emp(emp_form("ALLEN", Some(42), 1)).unwrap_err();
    assert_eq!(err.status_code(), 422);
    assert_eq!(detail(&err), "mgr(empno) [42] is not exists.");
    assert!(store.get_emp_all().is_empty());
}

#[test]
fn create_emp_with_existing_mgr() {
    let mut store = MemoryStore::new();
    store.create_dept(dept_form("SALES", "NYC")).unwrap();
    let boss = store.create_emp(emp_form("KING", None, 1)).unwrap();
    let worker = store.create_emp(emp_form("ALLEN", Some(boss.empno), 1)).unwrap();
    assert_eq!(worker.mgr, Some(boss.empno));
    assert_eq!(worker.empno, 2);
}

#[test]
fn delete_dept_with_and_without_employees() {
    let mut store = MemoryStore::new();
    store.create_dept(dept_form("SALES", "NYC")).unwrap();
    store.create_dept(dept_form("EMPTY", "LA")).unwrap();
    store.create_emp(emp_form("SMITH", None, 1)).unwrap();
    assert!(matches!(store.delete_dept(1), Err(ApiCustomError::UnprocessableEntity(_))));
    assert!(store.get_dept(1).is_ok());
    assert!(store.delete_dept(2).is_ok());
    assert!(matches!(store.get_dept(2), Err(ApiCustomError::NotFound)));
}

#[test]
fn delete_emp_referenced_as_manager() {
    let mut store = MemoryStore::new();
    store.create_dept(dept_form("SALES", "NYC")).unwrap();
    let boss = store.create_emp(emp_form("KING", None, 1)).unwrap();
    let worker = store.create_emp(emp_form("ALLEN", Some(boss.empno), 1)).unwrap();
    let err = store.delete_emp(boss.empno).unwrap_err();
    assert_eq!(err.status_code(), 422);
    assert_eq!(detail(&err), "empno [1] can not delete.");
    assert!(store.get_emp(boss.empno).is_ok());
    assert!(store.delete_emp(worker.empno).is_ok());
    assert!(store.delete_emp(boss.empno).is_ok());
}

#[test]
fn delete_emp_managing_only_itself_succeeds() {
    let mut store = MemoryStore::new();
    store.create_dept(dept_form("SALES", "NYC")).unwrap();
    let e = store.create_emp(emp_form("KING", None, 1)).unwrap();
    store.update_emp(e.empno, emp_form("KING", Some(e.empno), 1)).unwrap();
    assert!(store.delete_emp(e.empno).is_ok());
    assert!(matches!(store.get_emp(e.empno), Err(ApiCustomError::NotFound)));
}

#[test]
fn update_absent_emp_naming_absent_mgr_is_not_found() {
    let mut store = MemoryStore::new();
    store.create_dept(dept_form("SALES", "NYC")).unwrap();
    let err = store.update_emp(4, emp_form("SMITH", Some(8), 1)).unwrap_err();
    assert!(matches!(err, ApiCustomError::NotFound));
    assert_eq!(err.status_code(), 404);
}

#[test]
fn delete_absent_keys_is_not_found() {
    let mut store = MemoryStore::new();
    assert!(matches!(store.delete_dept(7), Err(ApiCustomError::NotFound)));
    assert!(matches!(store.delete_emp(7), Err(ApiCustomError::NotFound)));
    store.create_dept(dept_form("SALES", "NYC")).unwrap();
    store.delete_dept(1).unwrap();
    let again = store.delete_dept(1).unwrap_err();
    assert!(matches!(again, ApiCustomError::NotFound));
    assert_eq!(again.status_code(), 404);
}

#[test]
fn created_emp_reads_back_field_for_field() {
    let mut store = MemoryStore::new();
    store.create_dept(dept_form("SALES", "NYC")).unwrap();
    let mut form = emp_form("MARTIN", None, 1);
    form.job = "SALESMAN".to_string();
    form.comm = Some(1_400_000_000);
    form.hiredate = Date { year: 1981, month: 9, day: 28 };
    let created = store.create_emp(form).unwrap();
    let read = store.get_emp(created.empno).unwrap();
    assert_eq!(read.empno, created.empno);
    assert_eq!(read.ename, "MARTIN");
    assert_eq!(read.job, "SALESMAN");
    assert_eq!(read.mgr, None);
    assert_eq!(read.hiredate, Date { year: 1981, month: 9, day: 28 });
    assert_eq!(read.sal, 80000);
    assert_eq!(read.comm, Some(140000));
    assert_eq!(read.deptno, 1);
}

#[test]
fn update_dept_overwrites_fields() {
    let mut store = MemoryStore::new();
    store.create_dept(dept_form("SALES", "NYC")).unwrap();
    let updated = store.update_dept(1, dept_form("MARKETING", "CHICAGO")).unwrap();
    assert_eq!(updated.deptno, 1);
    let read = store.get_dept(1).unwrap();
    assert_eq!(read.dname, "MARKETING");
    assert_eq!(read.loc, "CHICAGO");
    assert!(matches!(store.update_dept(2, dept_form("X", "Y")), Err(ApiCustomError::NotFound)));
    let invalid = store.update_dept(1, dept_form("", "Y")).unwrap_err();
    assert_eq!(invalid.status_code(), 400);
    assert_eq!(store.get_dept(1).unwrap().dname, "MARKETING");
}

#[test]
fn update_emp_checks_references() {
    let mut store = MemoryStore::new();
    store.create_dept(dept_form("SALES", "NYC")).unwrap();
    store.create_emp(emp_form("SMITH", None, 1)).unwrap();
    let err = store.update_emp(1, emp_form("SMITH", None, 9)).unwrap_err();
    assert_eq!(detail(&err), "deptno [9] is not exists.");
    let err = store.update_emp(1, emp_form("SMITH", Some(8), 1)).unwrap_err();
    assert_eq!(detail(&err), "mgr(empno) [8] is not exists.");
    assert!(matches!(store.update_emp(5, emp_form("SMITH", None, 1)), Err(ApiCustomError::NotFound)));
    let updated = store.update_emp(1, emp_form("JONES", None, 1)).unwrap();
    assert_eq!(updated.empno, 1);
    assert_eq!(store.get_emp(1).unwrap().ename, "JONES");
}

#[test]
fn invalid_forms_are_rejected_before_integrity_checks() {
    let mut store = MemoryStore::new();
    let err = store.create_emp(emp_form("", None, 5)).unwrap_err();
    assert!(matches!(err, ApiCustomError::ValidationFailed(_)));
    assert_eq!(err.status_code(), 400);
    assert_eq!(err.message(), "Bad Request. [ename: must be 1 to 10 characters.]");
}

#[test]
fn amounts_are_stored_in_hundredths_rounded_half_up() {
    let mut store = MemoryStore::new();
    store.create_dept(dept_form("SALES", "NYC")).unwrap();
    let mut form = emp_form("WARD", None, 1);
    form.sal = 14_000;
    form.comm = Some(99_999_985_000);
    let e = store.create_emp(form).unwrap();
    assert_eq!(e.sal, 1);
    assert_eq!(e.comm, Some(9_999_999));
    let mut form = emp_form("WARD", None, 1);
    form.sal = 1_234_567;
    let e = store.update_emp(e.empno, form).unwrap();
    assert_eq!(e.sal, 123);
    assert_eq!(store.get_emp(e.empno).unwrap().sal, 123);
}
