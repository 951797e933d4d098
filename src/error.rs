//! The closed set of error kinds, their HTTP status codes and the uniform
//! `{ "message": ... }` body.

use vstd::prelude::*;
use vstd::string::*;
use crate::validate::{Violation, ViolationView, violations_view};

verus! {

/// Every way a request can fail.
#[derive(Debug)]
pub enum ApiCustomError {
    /// The addressed record, or route, does not exist.
    NotFound,
    /// A referential-integrity rule rejected the request; the detail is shown
    /// as it is.
    UnprocessableEntity(String),
    /// The path, query or body could not be read; holds the cause.
    MalformedRequest(String),
    /// The form broke field rules; holds every violation.
    ValidationFailed(Vec<Violation>),
    /// The store failed; holds the cause.
    StoreFailure(String),
    /// Anything else; holds the cause.
    InternalFailure(String),
}

/// The mathematical value of an error.
pub enum ErrorView {
    NotFound,
    UnprocessableEntity(Seq<char>),
    MalformedRequest(Seq<char>),
    ValidationFailed(Seq<ViolationView>),
    StoreFailure(Seq<char>),
    InternalFailure(Seq<char>),
}

impl View for ApiCustomError {
    type V = ErrorView;

    open spec fn view(&self) -> ErrorView {
        match self {
            ApiCustomError::NotFound => ErrorView::NotFound,
            ApiCustomError::UnprocessableEntity(d) => ErrorView::UnprocessableEntity(d@),
            ApiCustomError::MalformedRequest(c) => ErrorView::MalformedRequest(c@),
            ApiCustomError::ValidationFailed(v) => ErrorView::ValidationFailed(violations_view(v@)),
            ApiCustomError::StoreFailure(c) => ErrorView::StoreFailure(c@),
            ApiCustomError::InternalFailure(c) => ErrorView::InternalFailure(c@),
        }
    }
}

/// The HTTP status of each error kind.
pub open spec fn status_of(e: ErrorView) -> u16 {
    match e {
        ErrorView::NotFound => 404,
        ErrorView::UnprocessableEntity(_) => 422,
        ErrorView::MalformedRequest(_) => 400,
        ErrorView::ValidationFailed(_) => 400,
        ErrorView::StoreFailure(_) => 500,
        ErrorView::InternalFailure(_) => 500,
    }
}

/// One violation as a line: `field: message`.
pub open spec fn violation_line(v: ViolationView) -> Seq<char> {
    v.field + ": "@ + v.message
}

/// The violations, one line each, separated by line breaks.
pub open spec fn violations_text(v: Seq<ViolationView>) -> Seq<char>
    decreases v.len(),
{
    if v.len() == 0 {
        seq![]
    } else if v.len() == 1 {
        violation_line(v[0])
    } else {
        violations_text(v.drop_last()) + "\n"@ + violation_line(v.last())
    }
}

/// A cause in brackets after a fixed lead: `lead [cause]`.
pub open spec fn with_cause(lead: Seq<char>, cause: Seq<char>) -> Seq<char> {
    lead + " ["@ + cause + "]"@
}

/// The message of the body for each error kind.
pub open spec fn message_of(e: ErrorView) -> Seq<char> {
    match e {
        ErrorView::NotFound => "Not Found."@,
        ErrorView::UnprocessableEntity(d) => d,
        ErrorView::MalformedRequest(c) => with_cause("Bad Request."@, c),
        ErrorView::ValidationFailed(v) => with_cause("Bad Request."@, violations_text(v)),
        ErrorView::StoreFailure(c) => with_cause("Internal Server Error."@, c),
        ErrorView::InternalFailure(c) => with_cause("Internal Server Error."@, c),
    }
}

/// What a failed request answers: a status code and the body's message.
#[derive(Clone, Debug)]
pub struct ErrorResponse {
    pub status: u16,
    pub message: String,
}

/// Builds `lead [cause]`.
fn bracketed(lead: &str, cause: &str) -> (r: String)
    ensures
        r@ == with_cause(lead@, cause@),
{
    let r = String::from_str(lead).concat(" [").concat(cause).concat("]");
    r
}

/// Renders violations, one `field: message` line each.
pub fn render_violations(v: &Vec<Violation>) -> (r: String)
    ensures
        r@ == violations_text(violations_view(v@)),
{
    let ghost vv = violations_view(v@);
    let mut out = String::new();
    let mut i: usize = 0;
    while i < v.len()
        invariant
            i <= v@.len(),
            vv == violations_view(v@),
            out@ == violations_text(vv.take(i as int)),
        decreases v@.len() - i,
    {
        let ghost before = out@;
        let line = v[i].field.clone().concat(": ").concat(v[i].message.as_str());
        assert(vv.take(i + 1).drop_last() =~= vv.take(i as int));
        if i == 0 {
            out = line;
        } else {
            out = out.concat("\n").concat(line.as_str());
        }
        i = i + 1;
    }
    assert(vv.take(v@.len() as int) =~= vv);
    out
}

impl ApiCustomError {
    /// The HTTP status: 404, 422, 400 for malformed requests and failed
    /// validation, 500 for store and internal failures.
    pub fn status_code(&self) -> (r: u16)
        ensures
            r == status_of(self@),
    {
        match self {
            ApiCustomError::NotFound => 404,
            ApiCustomError::UnprocessableEntity(_) => 422,
            ApiCustomError::MalformedRequest(_) => 400,
            ApiCustomError::ValidationFailed(_) => 400,
            ApiCustomError::StoreFailure(_) => 500,
            ApiCustomError::InternalFailure(_) => 500,
        }
    }

    /// The message of the error's body.
    pub fn message(&self) -> (r: String)
        ensures
            r@ == message_of(self@),
    {
        match self {
            ApiCustomError::NotFound => String::from_str("Not Found."),
            ApiCustomError::UnprocessableEntity(d) => d.clone(),
            ApiCustomError::MalformedRequest(c) => bracketed("Bad Request.", c.as_str()),
            ApiCustomError::ValidationFailed(v) => {
                let text = render_violations(v);
                bracketed("Bad Request.", text.as_str())
            },
            ApiCustomError::StoreFailure(c) => bracketed("Internal Server Error.", c.as_str()),
            ApiCustomError::InternalFailure(c) => bracketed("Internal Server Error.", c.as_str()),
        }
    }

    /// The response for this error: its status and message.
    pub fn error_response(&self) -> (r: ErrorResponse)
        ensures
            r.status == status_of(self@),
            r.message@ == message_of(self@),
    {
        ErrorResponse { status: self.status_code(), message: self.message() }
    }
}

} // verus!
