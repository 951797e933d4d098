use vstd::prelude::*;

verus! {

/// A calendar date, as year, month (1 to 12) and day of the month.
#[derive(Clone, Copy, Debug, PartialEq, Eq, Structural)]
pub struct Date {
    pub year: i32,
    pub month: u32,
    pub day: u32,
}

/// Whether `year` is a leap year of the Gregorian calendar.
pub open spec fn leap_year(year: int) -> bool {
    (year % 4 == 0 && year % 100 != 0) || year % 400 == 0
}

/// The number of days of a month (1 to 12) of a year.
pub open spec fn days_in_month(year: int, month: int) -> int {
    if month == 2 {
        if leap_year(year) { 29 } else { 28 }
    } else if month == 4 || month == 6 || month == 9 || month == 11 {
        30
    } else {
        31
    }
}

impl Date {
    /// A date that the Gregorian calendar has.
    pub open spec fn valid(self) -> bool {
        &&& 1 <= self.month <= 12
        &&& 1 <= self.day <= days_in_month(self.year as int, self.month as int)
    }

    /// Whether the date is one that the Gregorian calendar has.
    pub fn is_valid(&self) -> (r: bool)
        ensures
            r == self.valid(),
    {
        if self.month < 1 || self.month > 12 || self.day < 1 {
            return false;
        }
        let leap = (self.year % 4 == 0 && self.year % 100 != 0) || self.year % 400 == 0;
        let days: u32 = if self.month == 2 {
            if leap { 29 } else { 28 }
        } else if self.month == 4 || self.month == 6 || self.month == 9 || self.month == 11 {
            30
        } else {
            31
        };
        self.day <= days
    }
}

/// An amount given in millionths, in hundredths: rounded half up. Meant for
/// amounts that are not negative.
pub open spec fn hundredths_of(a: i64) -> int {
    a / 10000 + if a % 10000 >= 5000 { 1int } else { 0int }
}

/// Rounds an amount in millionths to hundredths, half up.
pub fn to_hundredths(a: i64) -> (r: i64)
    requires
        0 <= a,
    ensures
        r == hundredths_of(a),
{
    let up: i64 = if a % 10000 >= 5000 { 1 } else { 0 };
    a / 10000 + up
}

/// A stored employee. Amounts of money are held in hundredths, as the
/// table's two fractional digits hold them.
#[derive(Clone, Debug)]
pub struct Model {
    /// Assigned by the store on creation; never changed afterwards.
    pub empno: i32,
    pub ename: String,
    pub job: String,
    /// The `empno` of this employee's manager, if any.
    pub mgr: Option<i32>,
    pub hiredate: Date,
    pub sal: i64,
    pub comm: Option<i64>,
    /// The department this employee belongs to.
    pub deptno: i32,
}

/// The mathematical value of an employee.
pub struct EmpView {
    pub empno: i32,
    pub ename: Seq<char>,
    pub job: Seq<char>,
    pub mgr: Option<i32>,
    pub hiredate: Date,
    pub sal: i64,
    pub comm: Option<i64>,
    pub deptno: i32,
}

impl View for Model {
    type V = EmpView;

    open spec fn view(&self) -> EmpView {
        EmpView {
            empno: self.empno,
            ename: self.ename@,
            job: self.job@,
            mgr: self.mgr,
            hiredate: self.hiredate,
            sal: self.sal,
            comm: self.comm,
            deptno: self.deptno,
        }
    }
}

impl Model {
    /// A copy with the same view.
    pub fn duplicate(&self) -> (r: Model)
        ensures
            r@ == self@,
    {
        Model {
            empno: self.empno,
            ename: self.ename.clone(),
            job: self.job.clone(),
            mgr: self.mgr,
            hiredate: self.hiredate,
            sal: self.sal,
            comm: self.comm,
            deptno: self.deptno,
        }
    }
}

/// The fields of an employee that a client supplies on create and update.
#[derive(Clone, Debug)]
pub struct EmpForm {
    pub ename: String,
    pub job: String,
    pub mgr: Option<i32>,
    pub hiredate: Date,
    /// Salary in millionths, as precise as the client gave it.
    pub sal: i64,
    /// Commission in millionths, as precise as the client gave it.
    pub comm: Option<i64>,
    pub deptno: i32,
}

/// The mathematical value of an employee form.
pub struct EmpFormView {
    pub ename: Seq<char>,
    pub job: Seq<char>,
    pub mgr: Option<i32>,
    pub hiredate: Date,
    pub sal: i64,
    pub comm: Option<i64>,
    pub deptno: i32,
}

impl View for EmpForm {
    type V = EmpFormView;

    open spec fn view(&self) -> EmpFormView {
        EmpFormView {
            ename: self.ename@,
            job: self.job@,
            mgr: self.mgr,
            hiredate: self.hiredate,
            sal: self.sal,
            comm: self.comm,
            deptno: self.deptno,
        }
    }
}

} // verus!
