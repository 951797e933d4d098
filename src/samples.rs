//! Field rules of forms outside the two entities: required fields, numeric
//! ranges, and format rules (e-mail address, URL, postal code).

use vstd::prelude::*;
use vstd::string::*;
use crate::validate::{broken, check_rule, length_within, violations_view, Rule, Violation, ViolationView};

verus! {

#[verifier::external_type_specification]
#[verifier::external_body]
pub struct ExRegex(regex::Regex);

/// Whether validator's e-mail rule accepts the text.
pub uninterp spec fn email_ok(s: Seq<char>) -> bool;

/// Whether validator's URL rule accepts the text.
pub uninterp spec fn url_ok(s: Seq<char>) -> bool;

/// Whether the text starts with a postal code: three decimal digits (any
/// Unicode decimal digit, as the regex crate's `\d` reads them), an optional
/// hyphen, four decimal digits.
pub uninterp spec fn post_code_ok(s: Seq<char>) -> bool;

/// Relies on validator's `ValidateEmail` for `String`: whether the text is an
/// e-mail address in the sense of the HTML5 rule.
#[verifier::external_body]
fn is_email(s: &String) -> (r: bool)
    ensures
        r == email_ok(s@),
{
    validator::ValidateEmail::validate_email(s)
}

/// Relies on validator's `ValidateUrl` for `String`: whether the url crate
/// parses the text.
#[verifier::external_body]
fn is_url(s: &String) -> (r: bool)
    ensures
        r == url_ok(s@),
{
    validator::ValidateUrl::validate_url(s)
}

/// The text of the postal-code pattern.
pub open spec fn post_code_pattern() -> Seq<char> {
    r"^[\d]{3}-?[\d]{4}"@
}

/// Relies on `regex::Regex::new`, which fails only on a pattern that is not
/// valid syntax or that exceeds its size limit; the postal-code pattern is
/// neither.
#[verifier::external_body]
fn compile_pattern(pattern: &str) -> (r: Option<regex::Regex>)
    ensures
        pattern@ == post_code_pattern() ==> r is Some,
{
    regex::Regex::new(pattern).ok()
}

/// The compiled postal-code pattern. Compile it once and share it.
pub struct PostCodePattern {
    re: regex::Regex,
}

impl PostCodePattern {
    /// Compiles the pattern.
    pub fn new() -> (r: Option<PostCodePattern>)
        ensures
            r is Some,
    {
        match compile_pattern(r"^[\d]{3}-?[\d]{4}") {
            Some(re) => Some(PostCodePattern { re }),
            None => None,
        }
    }

    /// Relies on `regex::Regex::is_match` with the pattern that `new`
    /// compiled, the only one this type holds.
    #[verifier::external_body]
    pub(crate) fn matches(&self, s: &String) -> (r: bool)
        ensures
            r == post_code_ok(s@),
    {
        self.re.is_match(s)
    }
}

/// A query with a required number `x` in 1 to 10 and an optional text `y`
/// of 2 to 5 characters.
#[derive(Clone, Debug)]
pub struct ValidateGetStruct {
    pub x: Option<u32>,
    pub y: Option<String>,
}

/// A form with a required `name` of 1 to 10 characters, a required
/// `birth_month` in 1 to 12, and optional `email`, `hp_url` and
/// `post_code` that must be an e-mail address, a URL and a postal code.
#[derive(Clone, Debug)]
pub struct ValidatePostStruct {
    pub name: Option<String>,
    pub birth_month: Option<u32>,
    pub email: Option<String>,
    pub hp_url: Option<String>,
    pub post_code: Option<String>,
}

pub open spec fn required_message() -> Seq<char> {
    "is required."@
}

/// The rules of a required field: present, and then `ok` of its value.
pub open spec fn required_rule(present: bool, ok: bool, field: Seq<char>, rule: Rule, message: Seq<char>) -> Seq<ViolationView> {
    if !present {
        broken(false, field, Rule::Required, required_message())
    } else {
        broken(ok, field, rule, message)
    }
}

/// Every rule that a query breaks, in field order.
pub open spec fn get_violations(q: ValidateGetStruct) -> Seq<ViolationView> {
    required_rule(q.x is Some, q.x is Some && 1 <= q.x->Some_0 <= 10, "x"@, Rule::Range, "must be 1 to 10."@)
        + broken(q.y is None || 2 <= q.y->Some_0@.len() <= 5, "y"@, Rule::Length, "must be 2 to 5 characters."@)
}

/// Every rule that a form breaks, in field order.
pub open spec fn post_violations(f: ValidatePostStruct) -> Seq<ViolationView> {
    required_rule(f.name is Some, f.name is Some && 1 <= f.name->Some_0@.len() <= 10, "name"@, Rule::Length,
        "must be 1 to 10 characters."@)
        + required_rule(f.birth_month is Some, f.birth_month is Some && 1 <= f.birth_month->Some_0 <= 12,
        "birth_month"@, Rule::Range, "must be 1 to 12."@)
        + broken(f.email is None || email_ok(f.email->Some_0@), "email"@, Rule::Format, "is not an e-mail address."@)
        + broken(f.hp_url is None || url_ok(f.hp_url->Some_0@), "hp_url"@, Rule::Format, "is not a URL."@)
        + broken(f.post_code is None || post_code_ok(f.post_code->Some_0@), "post_code"@, Rule::Format,
        "is not a postal code."@)
}

/// Appends the violations of a required field.
fn push_required(out: &mut Vec<Violation>, present: bool, ok: bool, field: &str, rule: Rule, message: &str)
    ensures
        violations_view(final(out)@) == violations_view(old(out)@) + required_rule(present, ok, field@, rule, message@),
{
    if !present {
        check_rule(out, false, field, Rule::Required, "is required.");
    } else {
        check_rule(out, ok, field, rule, message);
    }
}

/// Whether an optional text is absent or has a length in `[min, max]`.
fn optional_length(s: &Option<String>, min: u64, max: u64) -> (r: bool)
    ensures
        r == (s is None || (min <= s->Some_0@.len() <= max)),
{
    match s {
        None => true,
        Some(t) => length_within(t, min, max),
    }
}

/// Checks a query. Returns every violation, in field order.
pub fn validate_get(q: &ValidateGetStruct) -> (r: Vec<Violation>)
    ensures
        violations_view(r@) == get_violations(*q),
{
    let mut out: Vec<Violation> = Vec::new();
    assert(violations_view(out@) =~= seq![]);
    let x_ok = match q.x {
        Some(x) => 1 <= x && x <= 10,
        None => false,
    };
    push_required(&mut out, q.x.is_some(), x_ok, "x", Rule::Range, "must be 1 to 10.");
    let y_ok = optional_length(&q.y, 2, 5);
    check_rule(&mut out, y_ok, "y", Rule::Length, "must be 2 to 5 characters.");
    assert(violations_view(out@) =~= get_violations(*q));
    out
}

/// Checks a form, matching `post_code` with `pattern`. Returns every
/// violation, in field order.
pub fn validate_post(f: &ValidatePostStruct, pattern: &PostCodePattern) -> (r: Vec<Violation>)
    ensures
        violations_view(r@) == post_violations(*f),
{
    let mut out: Vec<Violation> = Vec::new();
    assert(violations_view(out@) =~= seq![]);
    let name_ok = f.name.is_some() && optional_length(&f.name, 1, 10);
    push_required(&mut out, f.name.is_some(), name_ok, "name", Rule::Length, "must be 1 to 10 characters.");
    let month_ok = match f.birth_month {
        Some(m) => 1 <= m && m <= 12,
        None => false,
    };
    push_required(&mut out, f.birth_month.is_some(), month_ok, "birth_month", Rule::Range, "must be 1 to 12.");
    let email_ok = match &f.email {
        Some(e) => is_email(e),
        None => true,
    };
    check_rule(&mut out, email_ok, "email", Rule::Format, "is not an e-mail address.");
    let url_ok = match &f.hp_url {
        Some(u) => is_url(u),
        None => true,
    };
    check_rule(&mut out, url_ok, "hp_url", Rule::Format, "is not a URL.");
    let code_ok = match &f.post_code {
        Some(c) => pattern.matches(c),
        None => true,
    };
    check_rule(&mut out, code_ok, "post_code", Rule::Format, "is not a postal code.");
    assert(violations_view(out@) =~= post_violations(*f));
    out
}

} // verus!
