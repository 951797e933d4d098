//! Field-level checks of client-supplied forms. Every violated rule is
//! reported, in the order of the fields.

use vstd::prelude::*;
use vstd::string::*;
use crate::entities::dept::{DeptForm, DeptFormView};
use crate::entities::emp::{EmpForm, EmpFormView};

verus! {

/// The kind of a field rule.
#[derive(Clone, Copy, Debug, PartialEq, Eq, Structural)]
pub enum Rule {
    /// The field must be present.
    Required,
    /// A text's length in characters must lie within bounds.
    Length,
    /// A number must lie within bounds.
    Range,
    /// A text must have a given form (a date, an address, a pattern).
    Format,
}

/// One violated rule: the field, the rule, and a message for the client.
#[derive(Clone, Debug)]
pub struct Violation {
    pub field: String,
    pub rule: Rule,
    pub message: String,
}

/// The mathematical value of a violation.
pub struct ViolationView {
    pub field: Seq<char>,
    pub rule: Rule,
    pub message: Seq<char>,
}

impl View for Violation {
    type V = ViolationView;

    open spec fn view(&self) -> ViolationView {
        ViolationView { field: self.field@, rule: self.rule, message: self.message@ }
    }
}

/// The views of a list of violations.
pub open spec fn violations_view(v: Seq<Violation>) -> Seq<ViolationView> {
    v.map_values(|x: Violation| x@)
}

/// The largest amount of money a form accepts, in millionths (99999.99).
pub const AMOUNT_MAX: i64 = 99999990000;

/// The bound that an amount must exceed, in millionths (0.01).
pub const AMOUNT_MIN: i64 = 10000;

/// A text whose length in characters lies in `[min, max]`.
pub open spec fn length_ok(s: Seq<char>, min: int, max: int) -> bool {
    min <= s.len() <= max
}

/// An amount in millionths that lies in (0.01, 99999.99].
pub open spec fn amount_ok(a: i64) -> bool {
    AMOUNT_MIN < a <= AMOUNT_MAX
}

/// The violation of `rule` on `field`, with `message`, if `ok` fails; else
/// nothing.
pub open spec fn broken(ok: bool, field: Seq<char>, rule: Rule, message: Seq<char>) -> Seq<ViolationView> {
    if ok {
        seq![]
    } else {
        seq![ViolationView { field, rule, message }]
    }
}

pub open spec fn dname_message() -> Seq<char> {
    "must be 1 to 14 characters."@
}

pub open spec fn loc_message() -> Seq<char> {
    "must be 1 to 13 characters."@
}

pub open spec fn ename_message() -> Seq<char> {
    "must be 1 to 10 characters."@
}

pub open spec fn job_message() -> Seq<char> {
    "must be 1 to 9 characters."@
}

pub open spec fn hiredate_message() -> Seq<char> {
    "must be a calendar date."@
}

pub open spec fn amount_message() -> Seq<char> {
    "must be more than 0.01 and at most 99999.99."@
}

/// Every rule that a department form breaks, in field order.
pub open spec fn dept_violations(f: DeptFormView) -> Seq<ViolationView> {
    broken(length_ok(f.dname, 1, 14), "dname"@, Rule::Length, dname_message())
        + broken(length_ok(f.loc, 1, 13), "loc"@, Rule::Length, loc_message())
}

/// Every rule that an employee form breaks, in field order.
pub open spec fn emp_violations(f: EmpFormView) -> Seq<ViolationView> {
    broken(length_ok(f.ename, 1, 10), "ename"@, Rule::Length, ename_message())
        + broken(length_ok(f.job, 1, 9), "job"@, Rule::Length, job_message())
        + broken(f.hiredate.valid(), "hiredate"@, Rule::Format, hiredate_message())
        + broken(amount_ok(f.sal), "sal"@, Rule::Range, amount_message())
        + broken(f.comm is None || amount_ok(f.comm->Some_0), "comm"@, Rule::Range, amount_message())
}

/// Relies on validator's `ValidateLength` for `String`, whose length is the
/// number of characters (`chars().count()`), checked against both bounds.
#[verifier::external_body]
pub(crate) fn length_within(s: &String, min: u64, max: u64) -> (r: bool)
    ensures
        r == (min <= s@.len() && s@.len() <= max),
{
    validator::ValidateLength::<u64>::validate_length(s, Some(min), Some(max), None)
}

/// Appends the violation of `rule` on `field`, with `message`, when `ok`
/// fails.
pub(crate) fn check_rule(out: &mut Vec<Violation>, ok: bool, field: &str, rule: Rule, message: &str)
    ensures
        violations_view(final(out)@) == violations_view(old(out)@) + broken(ok, field@, rule, message@),
{
    let ghost before = out@;
    if !ok {
        out.push(Violation { field: String::from_str(field), rule, message: String::from_str(message) });
    }
    assert(violations_view(out@) =~= violations_view(before) + broken(ok, field@, rule, message@));
}

/// Checks a department form: `dname` of 1 to 14 characters, `loc` of 1 to
/// 13. Returns every violation; an empty list means the form is valid.
pub fn validate_dept(form: &DeptForm) -> (r: Vec<Violation>)
    ensures
        violations_view(r@) == dept_violations(form@),
{
    let mut out: Vec<Violation> = Vec::new();
    assert(violations_view(out@) =~= seq![]);
    let ok = length_within(&form.dname, 1, 14);
    check_rule(&mut out, ok, "dname", Rule::Length, "must be 1 to 14 characters.");
    let ok = length_within(&form.loc, 1, 13);
    check_rule(&mut out, ok, "loc", Rule::Length, "must be 1 to 13 characters.");
    assert(violations_view(out@) =~= dept_violations(form@));
    out
}

/// Checks an amount in millionths against (0.01, 99999.99].
fn amount_within(a: i64) -> (r: bool)
    ensures
        r == amount_ok(a),
{
    AMOUNT_MIN < a && a <= AMOUNT_MAX
}

/// Checks an employee form: `ename` of 1 to 10 characters, `job` of 1 to 9,
/// `hiredate` a calendar date, `sal` and (when present) `comm` in (0.01, 99999.99]. Returns every
/// violation; an empty list means the form is valid.
pub fn validate_emp(form: &EmpForm) -> (r: Vec<Violation>)
    ensures
        violations_view(r@) == emp_violations(form@),
{
    let mut out: Vec<Violation> = Vec::new();
    assert(violations_view(out@) =~= seq![]);
    let ok = length_within(&form.ename, 1, 10);
    check_rule(&mut out, ok, "ename", Rule::Length, "must be 1 to 10 characters.");
    let ok = length_within(&form.job, 1, 9);
    check_rule(&mut out, ok, "job", Rule::Length, "must be 1 to 9 characters.");
    let ok = form.hiredate.is_valid();
    check_rule(&mut out, ok, "hiredate", Rule::Format, "must be a calendar date.");
    let ok = amount_within(form.sal);
    check_rule(&mut out, ok, "sal", Rule::Range, "must be more than 0.01 and at most 99999.99.");
    let ok = match form.comm {
        None => true,
        Some(c) => amount_within(c),
    };
    check_rule(&mut out, ok, "comm", Rule::Range, "must be more than 0.01 and at most 99999.99.");
    assert(violations_view(out@) =~= emp_violations(form@));
    out
}

} // verus!
