use dept_emp::entities::dept::DeptForm;
use dept_emp::entities::emp::{to_hundredths, Date, EmpForm};
use dept_emp::error::ApiCustomError;
use dept_emp::guard::{finish_delete, list_status, next_step, Check, Op, Step};
use dept_emp::text::i32_text;
use dept_emp::validate::Rule;
use dept_emp::samples::{validate_get, validate_post, PostCodePattern, ValidateGetStruct, ValidatePostStruct};
use dept_emp::validate::{validate_dept, validate_emp, Violation};

fn emp_form(sal: i64, comm: Option<i64>) -> EmpForm {
    EmpForm {
        ename: "SMITH".to_string(),
        job: "CLERK".to_string(),
        mgr: Some(3),
        hiredate: Date { year: 2020, month: 1, day: 1 },
        sal,
        comm,
        deptno: 1,
    }
}

fn fields(v: &[Violation]) -> Vec<String> {
    v.iter().map(|x| x.field.clone()).collect()
}

#[test]
fn dept_lengths_count_characters() {
    let ok = DeptForm { dname: "ABCDEFGHIJKLMN".to_string(), loc: "営業所".to_string() };
    assert!(validate_dept(&ok).is_empty());
    let long = DeptForm { dname: "ABCDEFGHIJKLMNO".to_string(), loc: "ABCDEFGHIJKLMN".to_string() };
    assert_eq!(fields(&validate_dept(&long)), vec!["dname", "loc"]);
    let empty = DeptForm { dname: String::new(), loc: "NYC".to_string() };
    let v = validate_dept(&empty);
    assert_eq!(fields(&v), vec!["dname"]);
    assert_eq!(v[0].message, "must be 1 to 14 characters.");
}

#[test]
fn emp_amount_bounds() {
    assert!(validate_emp(&emp_form(10_001, None)).is_empty());
    assert!(validate_emp(&emp_form(14_000, None)).is_empty());
    assert!(validate_emp(&emp_form(99_999_990_000, Some(99_999_990_000))).is_empty());
    assert_eq!(fields(&validate_emp(&emp_form(10_000, None))), vec!["sal"]);
    assert_eq!(fields(&validate_emp(&emp_form(99_999_990_001, Some(0)))), vec!["sal", "comm"]);
}

#[test]
fn emp_all_violations_are_reported() {
    let mut f = emp_form(0, Some(100_000_000_000));
    f.ename = "ABCDEFGHIJK".to_string();
    f.job = String::new();
    let v = validate_emp(&f);
    assert_eq!(fields(&v), vec!["ename", "job", "sal", "comm"]);
    let err = ApiCustomError::ValidationFailed(v);
    assert_eq!(
        err.message(),
        "Bad Request. [ename: must be 1 to 10 characters.\njob: must be 1 to 9 characters.\n\
         sal: must be more than 0.01 and at most 99999.99.\ncomm: must be more than 0.01 and at most 99999.99.]"
    );
}

#[test]
fn status_codes_and_messages() {
    let cases = vec![
        (ApiCustomError::NotFound, 404, "Not Found."),
        (ApiCustomError::UnprocessableEntity("no".to_string()), 422, "no"),
        (ApiCustomError::MalformedRequest("bad path".to_string()), 400, "Bad Request. [bad path]"),
        (ApiCustomError::ValidationFailed(Vec::new()), 400, "Bad Request. []"),
        (ApiCustomError::StoreFailure("down".to_string()), 500, "Internal Server Error. [down]"),
        (ApiCustomError::InternalFailure("oops".to_string()), 500, "Internal Server Error. [oops]"),
    ];
    for (err, status, message) in cases {
        let resp = err.error_response();
        assert_eq!(resp.status, status);
        assert_eq!(resp.message, message);
    }
}

#[test]
fn next_step_walks_the_create_emp_plan() {
    let op = Op::CreateEmp(emp_form(800_000_000, None));
    assert!(matches!(next_step(&op, &vec![]), Step::Check(Check::DepartmentExists(1))));
    assert!(matches!(next_step(&op, &vec![true]), Step::Check(Check::EmployeeExists(3))));
    assert!(matches!(next_step(&op, &vec![true, true]), Step::Persist));
    match next_step(&op, &vec![true, false]) {
        Step::Fail(ApiCustomError::UnprocessableEntity(d)) => assert_eq!(d, "mgr(empno) [3] is not exists."),
        other => panic!("unexpected {:?}", other),
    }
}

#[test]
fn next_step_walks_the_delete_plans() {
    let op = Op::DeleteDept(4);
    assert!(matches!(next_step(&op, &vec![]), Step::Check(Check::DepartmentExists(4))));
    assert!(matches!(next_step(&op, &vec![false]), Step::Fail(ApiCustomError::NotFound)));
    assert!(matches!(next_step(&op, &vec![true]), Step::Check(Check::HasDependentEmployees(4))));
    assert!(matches!(next_step(&op, &vec![true, true]), Step::Fail(ApiCustomError::UnprocessableEntity(_))));
    assert!(matches!(next_step(&op, &vec![true, false]), Step::Persist));
    let op = Op::DeleteEmp(6);
    assert!(matches!(next_step(&op, &vec![true]), Step::Check(Check::IsReferencedAsManager(6))));
    match next_step(&op, &vec![true, true]) {
        Step::Fail(ApiCustomError::UnprocessableEntity(d)) => assert_eq!(d, "empno [6] can not delete."),
        other => panic!("unexpected {:?}", other),
    }
}

#[test]
fn next_step_validates_first() {
    let op = Op::CreateDept(DeptForm { dname: String::new(), loc: String::new() });
    match next_step(&op, &vec![]) {
        Step::Fail(ApiCustomError::ValidationFailed(v)) => assert_eq!(fields(&v), vec!["dname", "loc"]),
        other => panic!("unexpected {:?}", other),
    }
    let op = Op::CreateDept(DeptForm { dname: "SALES".to_string(), loc: "NYC".to_string() });
    assert!(matches!(next_step(&op, &vec![]), Step::Persist));
}

#[test]
fn update_emp_missing_record_is_not_found() {
    let op = Op::UpdateEmp(9, emp_form(800_000_000, None));
    assert!(matches!(next_step(&op, &vec![true]), Step::Check(Check::EmployeeExists(9))));
    assert!(matches!(next_step(&op, &vec![true, false]), Step::Fail(ApiCustomError::NotFound)));
    assert!(matches!(next_step(&op, &vec![true, true]), Step::Check(Check::EmployeeExists(3))));
    match next_step(&op, &vec![true, true, false]) {
        Step::Fail(ApiCustomError::UnprocessableEntity(d)) => assert_eq!(d, "mgr(empno) [3] is not exists."),
        other => panic!("unexpected {:?}", other),
    }
    assert!(matches!(next_step(&op, &vec![true, true, true]), Step::Persist));
    assert!(matches!(next_step(&op, &vec![false]), Step::Fail(ApiCustomError::UnprocessableEntity(_))));
}

#[test]
fn finish_delete_reads_rows_affected() {
    assert!(matches!(finish_delete(0), Err(ApiCustomError::NotFound)));
    assert!(finish_delete(1).is_ok());
}

#[test]
fn query_rules() {
    let ok = ValidateGetStruct { x: Some(10), y: Some("ab".to_string()) };
    assert!(validate_get(&ok).is_empty());
    let missing = ValidateGetStruct { x: None, y: None };
    let v = validate_get(&missing);
    assert_eq!(fields(&v), vec!["x"]);
    assert_eq!(v[0].message, "is required.");
    let bad = ValidateGetStruct { x: Some(0), y: Some("abcdef".to_string()) };
    assert_eq!(fields(&validate_get(&bad)), vec!["x", "y"]);
}

#[test]
fn post_form_rules() {
    let pattern = PostCodePattern::new().unwrap();
    let ok = ValidatePostStruct {
        name: Some("Taro".to_string()),
        birth_month: Some(12),
        email: Some("taro@example.com".to_string()),
        hp_url: Some("https://example.com/".to_string()),
        post_code: Some("123-4567".to_string()),
    };
    assert!(validate_post(&ok, &pattern).is_empty());
    let no_hyphen = ValidatePostStruct { post_code: Some("1234567".to_string()), ..ok.clone() };
    assert!(validate_post(&no_hyphen, &pattern).is_empty());
    let bad = ValidatePostStruct {
        name: None,
        birth_month: Some(13),
        email: Some("not-an-address".to_string()),
        hp_url: Some("not a url".to_string()),
        post_code: Some("12-34".to_string()),
    };
    let v = validate_post(&bad, &pattern);
    assert_eq!(fields(&v), vec!["name", "birth_month", "email", "hp_url", "post_code"]);
    let absent = ValidatePostStruct { name: Some("A".to_string()), birth_month: Some(1), email: None, hp_url: None, post_code: None };
    assert!(validate_post(&absent, &pattern).is_empty());
}

#[test]
fn hiredate_must_be_a_calendar_date() {
    let valid = [(2020, 2, 29), (2000, 2, 29), (2019, 12, 31), (-4, 2, 29), (1981, 4, 30)];
    for (year, month, day) in valid {
        assert!(Date { year, month, day }.is_valid(), "{}-{}-{}", year, month, day);
    }
    let invalid = [(2019, 2, 29), (1900, 2, 29), (2020, 13, 1), (2020, 0, 1), (2020, 4, 31), (2020, 1, 0)];
    for (year, month, day) in invalid {
        assert!(!Date { year, month, day }.is_valid(), "{}-{}-{}", year, month, day);
    }
    let mut f = emp_form(800_000_000, None);
    f.hiredate = Date { year: 2019, month: 2, day: 29 };
    let v = validate_emp(&f);
    assert_eq!(fields(&v), vec!["hiredate"]);
    assert_eq!(v[0].message, "must be a calendar date.");
}

#[test]
fn list_status_marks_empty_lists() {
    assert_eq!(list_status(0), 204);
    assert_eq!(list_status(1), 200);
    assert_eq!(list_status(14), 200);
}

#[test]
fn decimal_text_of_integers() {
    assert_eq!(i32_text(0), "0");
    assert_eq!(i32_text(7), "7");
    assert_eq!(i32_text(1234), "1234");
    assert_eq!(i32_text(-56), "-56");
    assert_eq!(i32_text(i32::MAX), "2147483647");
    assert_eq!(i32_text(i32::MIN), "-2147483648");
}

#[test]
fn violations_carry_their_rule() {
    let mut f = emp_form(0, None);
    f.job = String::new();
    f.hiredate = Date { year: 2021, month: 2, day: 30 };
    let rules: Vec<Rule> = validate_emp(&f).iter().map(|v| v.rule).collect();
    assert_eq!(rules, vec![Rule::Length, Rule::Format, Rule::Range]);
    let q = ValidateGetStruct { x: None, y: Some("a".to_string()) };
    let rules: Vec<Rule> = validate_get(&q).iter().map(|v| v.rule).collect();
    assert_eq!(rules, vec![Rule::Required, Rule::Length]);
}

#[test]
fn rounding_to_hundredths() {
    assert_eq!(to_hundredths(0), 0);
    assert_eq!(to_hundredths(14_999), 1);
    assert_eq!(to_hundredths(15_000), 2);
    assert_eq!(to_hundredths(800_000_000), 80_000);
}
