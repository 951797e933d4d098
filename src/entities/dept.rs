use vstd::prelude::*;

verus! {

/// A stored department.
#[derive(Clone, Debug)]
pub struct Model {
    /// Assigned by the store on creation; never changed afterwards.
    pub deptno: i32,
    pub dname: String,
    pub loc: String,
}

/// The mathematical value of a department.
pub struct DeptView {
    pub deptno: i32,
    pub dname: Seq<char>,
    pub loc: Seq<char>,
}

impl View for Model {
    type V = DeptView;

    open spec fn view(&self) -> DeptView {
        DeptView { deptno: self.deptno, dname: self.dname@, loc: self.loc@ }
    }
}

impl Model {
    /// A copy with the same view.
    pub fn duplicate(&self) -> (r: Model)
        ensures
            r@ == self@,
    {
        Model { deptno: self.deptno, dname: self.dname.clone(), loc: self.loc.clone() }
    }
}

/// The fields of a department that a client supplies on create and update.
#[derive(Clone, Debug)]
pub struct DeptForm {
    pub dname: String,
    pub loc: String,
}

/// The mathematical value of a department form.
pub struct DeptFormView {
    pub dname: Seq<char>,
    pub loc: Seq<char>,
}

impl View for DeptForm {
    type V = DeptFormView;

    open spec fn view(&self) -> DeptFormView {
        DeptFormView { dname: self.dname@, loc: self.loc@ }
    }
}

} // verus!
