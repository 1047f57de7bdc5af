//! Registration input validation.
//!
//! Validation does not stop at the first bad field: every field is
//! checked and all violations are reported together in one response.

use vstd::prelude::*;
use crate::http::{Response, ResponseV, HeaderMap, STATUS_CREATED, STATUS_BAD_REQUEST};
use crate::num::is_digit;

verus! {

/// A registration payload, already decoded into plain fields.
pub struct Registration {
    pub username: String,
    pub email: String,
    pub password: String,
    pub password_confirmation: String,
}

/// The abstract value of a registration payload.
pub struct RegistrationV {
    pub username: Seq<char>,
    pub email: Seq<char>,
    pub password: Seq<char>,
    pub password_confirmation: Seq<char>,
}

impl View for Registration {
    type V = RegistrationV;

    open spec fn view(&self) -> RegistrationV {
        RegistrationV {
            username: self.username@,
            email: self.email@,
            password: self.password@,
            password_confirmation: self.password_confirmation@,
        }
    }
}

/// One field-level violation.
#[derive(Clone, Copy, PartialEq, Eq, Structural, Debug)]
pub enum FieldViolation {
    UsernameLength,
    EmailFormat,
    PasswordLength,
    PasswordWeak,
    PasswordMismatch,
}

/// The username must have between four and twenty characters.
pub open spec fn username_ok(u: Seq<char>) -> bool {
    4 <= u.len() <= 20
}

/// An address is accepted when some '@' has at least one character on
/// each side.
pub open spec fn email_ok(e: Seq<char>) -> bool {
    exists|i: int| 0 < i < e.len() - 1 && e[i] == '@'
}

/// The password must have at least eight characters.
pub open spec fn password_len_ok(p: Seq<char>) -> bool {
    p.len() >= 8
}

pub open spec fn is_upper(c: char) -> bool {
    'A' <= c && c <= 'Z'
}

pub open spec fn is_lower(c: char) -> bool {
    'a' <= c && c <= 'z'
}

/// A strong password holds an upper-case letter, a lower-case letter
/// and a digit.
pub open spec fn password_strong(p: Seq<char>) -> bool {
    (exists|i: int| 0 <= i < p.len() && is_upper(#[trigger] p[i])) && (exists|i: int|
        0 <= i < p.len() && is_lower(#[trigger] p[i])) && (exists|i: int|
        0 <= i < p.len() && is_digit(#[trigger] p[i]))
}

/// Every violation of a payload, in field order. All fields are
/// checked; nothing short-circuits.
pub open spec fn violations(r: RegistrationV) -> Seq<FieldViolation> {
    (if username_ok(r.username) {
        Seq::<FieldViolation>::empty()
    } else {
        seq![FieldViolation::UsernameLength]
    }) + (if email_ok(r.email) {
        Seq::<FieldViolation>::empty()
    } else {
        seq![FieldViolation::EmailFormat]
    }) + (if password_len_ok(r.password) {
        Seq::<FieldViolation>::empty()
    } else {
        seq![FieldViolation::PasswordLength]
    }) + (if password_strong(r.password) {
        Seq::<FieldViolation>::empty()
    } else {
        seq![FieldViolation::PasswordWeak]
    }) + (if r.password_confirmation == r.password {
        Seq::<FieldViolation>::empty()
    } else {
        seq![FieldViolation::PasswordMismatch]
    })
}

fn check_email(e: &str) -> (r: bool)
    ensures
        r == email_ok(e@),
{
    let n = e.unicode_len();
    for i in 0..n
        invariant
            n == e@.len(),
            forall|j: int| 0 <= j < i ==> !(0 < j < e@.len() - 1 && e@[j] == '@'),
    {
        if i > 0 && i + 1 < n && e.get_char(i) == '@' {
            return true;
        }
    }
    false
}

fn check_strength(p: &str) -> (r: bool)
    ensures
        r == password_strong(p@),
{
    let n = p.unicode_len();
    let mut has_upper = false;
    let mut has_lower = false;
    let mut has_digit = false;
    for i in 0..n
        invariant
            n == p@.len(),
            has_upper == exists|j: int| 0 <= j < i && is_upper(#[trigger] p@[j]),
            has_lower == exists|j: int| 0 <= j < i && is_lower(#[trigger] p@[j]),
            has_digit == exists|j: int| 0 <= j < i && is_digit(#[trigger] p@[j]),
    {
        let c = p.get_char(i);
        if 'A' <= c && c <= 'Z' {
            has_upper = true;
        }
        if 'a' <= c && c <= 'z' {
            has_lower = true;
        }
        if '0' <= c && c <= '9' {
            has_digit = true;
        }
        assert(p@[i as int] == c);
    }
    has_upper && has_lower && has_digit
}

/// Checks every field and returns all violations, in field order.
pub fn validate_registration(reg: &Registration) -> (r: Vec<FieldViolation>)
    ensures
        r@ == violations(reg@),
{
    let mut out: Vec<FieldViolation> = Vec::new();
    let ulen = reg.username.as_str().unicode_len();
    if !(4 <= ulen && ulen <= 20) {
        out.push(FieldViolation::UsernameLength);
    }
    if !check_email(reg.email.as_str()) {
        out.push(FieldViolation::EmailFormat);
    }
    if reg.password.as_str().unicode_len() < 8 {
        out.push(FieldViolation::PasswordLength);
    }
    if !check_strength(reg.password.as_str()) {
        out.push(FieldViolation::PasswordWeak);
    }
    if !(reg.password_confirmation == reg.password) {
        out.push(FieldViolation::PasswordMismatch);
    }
    proof {
        assert(out@ =~= violations(reg@));
    }
    out
}

/// The text reported for one violation.
pub open spec fn violation_message(v: FieldViolation) -> Seq<char> {
    match v {
        FieldViolation::UsernameLength => "username: length must be between 4 and 20"@,
        FieldViolation::EmailFormat => "email: not a valid address"@,
        FieldViolation::PasswordLength => "password: length must be at least 8"@,
        FieldViolation::PasswordWeak => "password: must hold an upper-case letter, a lower-case letter and a digit"@,
        FieldViolation::PasswordMismatch => "password_confirmation: must match password"@,
    }
}

fn violation_message_exec(v: &FieldViolation) -> (r: &'static str)
    ensures
        r@ == violation_message(*v),
{
    match v {
        FieldViolation::UsernameLength => "username: length must be between 4 and 20",
        FieldViolation::EmailFormat => "email: not a valid address",
        FieldViolation::PasswordLength => "password: length must be at least 8",
        FieldViolation::PasswordWeak => "password: must hold an upper-case letter, a lower-case letter and a digit",
        FieldViolation::PasswordMismatch => "password_confirmation: must match password",
    }
}

/// The violation texts joined with "; ".
pub open spec fn joined_messages(vs: Seq<FieldViolation>) -> Seq<char>
    decreases vs.len(),
{
    if vs.len() == 0 {
        Seq::empty()
    } else if vs.len() == 1 {
        violation_message(vs[0])
    } else {
        violation_message(vs[0]) + "; "@ + joined_messages(vs.drop_first())
    }
}

fn join_messages_from(vs: &Vec<FieldViolation>, k: usize) -> (r: String)
    requires
        k <= vs@.len(),
    ensures
        r@ == joined_messages(vs@.skip(k as int)),
    decreases vs@.len() - k,
{
    let ghost vv = vs@.skip(k as int);
    if k == vs.len() {
        let r = String::new();
        assert(r@ =~= joined_messages(vv));
        r
    } else if k + 1 == vs.len() {
        let r = violation_message_exec(&vs[k]).to_owned();
        assert(vv.len() == 1 && vv[0] == vs@[k as int]);
        r
    } else {
        let mut r = violation_message_exec(&vs[k]).to_owned();
        r.append("; ");
        let tail = join_messages_from(vs, k + 1);
        r.append(tail.as_str());
        proof {
            assert(vv[0] == vs@[k as int]);
            assert(vv.drop_first() =~= vs@.skip(k as int + 1));
            assert(r@ =~= violation_message(vv[0]) + "; "@ + joined_messages(vv.drop_first()));
        }
        r
    }
}

/// The body of a rejected registration: a fixed prefix, then every
/// violation's text joined with "; ".
pub open spec fn rejection_body(vs: Seq<FieldViolation>) -> Seq<char> {
    "Validation errors: "@ + joined_messages(vs)
}

/// What response a registration gets: created when nothing is wrong,
/// else a single bad-request response listing every violation.
pub open spec fn registration_response_spec(r: RegistrationV) -> ResponseV {
    if violations(r).len() == 0 {
        ResponseV {
            status: STATUS_CREATED,
            headers: Seq::empty(),
            body: "User created"@,
        }
    } else {
        ResponseV {
            status: STATUS_BAD_REQUEST,
            headers: Seq::empty(),
            body: rejection_body(violations(r)),
        }
    }
}

/// Validates a registration and builds the one response for it.
pub fn registration_response(reg: &Registration) -> (r: Response)
    ensures
        r@ == registration_response_spec(reg@),
{
    let vs = validate_registration(reg);
    if vs.len() == 0 {
        Response {
            status: STATUS_CREATED,
            headers: HeaderMap::new(),
            body: String::from_str("User created"),
        }
    } else {
        let mut body = String::from_str("Validation errors: ");
        proof {
            assert(vs@.skip(0) =~= vs@);
        }
        let joined = join_messages_from(&vs, 0);
        body.append(joined.as_str());
        Response { status: STATUS_BAD_REQUEST, headers: HeaderMap::new(), body }
    }
}

} // verus!
