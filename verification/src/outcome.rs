//! The failure taxonomy: every failure class a handler can produce,
//! the status code it maps to, and the response written for it. Every
//! variant maps to a response — no path is left unhandled.

use vstd::prelude::*;
use crate::http::{
    Response, ResponseV, HeaderMap, STATUS_OK, STATUS_BAD_REQUEST, STATUS_UNAUTHORIZED,
    STATUS_NOT_FOUND, STATUS_UNAVAILABLE, STATUS_INTERNAL_ERROR,
};
use crate::num::{dec_seq, u64_to_string};

verus! {

/// A typed failure outcome, carrying a status code's worth of meaning.
#[derive(Clone, Copy, PartialEq, Eq, Structural, Debug)]
pub enum AppError {
    /// Malformed or constraint-breaking input.
    Validation,
    /// A guard or credential failure.
    Unauthorized,
    /// No route or resource matched; for a resource, its identifier.
    NotFound(u64),
    /// A dependency was unreachable.
    Unavailable,
    /// An uncaught fault.
    Internal,
}

/// The status code of each failure class.
pub open spec fn status_of(e: AppError) -> u16 {
    match e {
        AppError::Validation => STATUS_BAD_REQUEST,
        AppError::Unauthorized => STATUS_UNAUTHORIZED,
        AppError::NotFound(_) => STATUS_NOT_FOUND,
        AppError::Unavailable => STATUS_UNAVAILABLE,
        AppError::Internal => STATUS_INTERNAL_ERROR,
    }
}

/// The body of each failure class's response.
pub open spec fn error_body(e: AppError) -> Seq<char> {
    match e {
        AppError::Validation => "Bad request"@,
        AppError::Unauthorized => "Invalid credentials"@,
        AppError::NotFound(id) => "User "@ + dec_seq(id as nat) + " not found"@,
        AppError::Unavailable => "Database unavailable"@,
        AppError::Internal => "Internal server error"@,
    }
}

/// The response for a failure: its class's status and body, no
/// headers. Every variant is covered.
pub fn error_response(e: &AppError) -> (r: Response)
    ensures
        r@ == (ResponseV {
            status: status_of(*e),
            headers: Seq::empty(),
            body: error_body(*e),
        }),
{
    match e {
        AppError::Validation => Response {
            status: STATUS_BAD_REQUEST,
            headers: HeaderMap::new(),
            body: String::from_str("Bad request"),
        },
        AppError::Unauthorized => Response {
            status: STATUS_UNAUTHORIZED,
            headers: HeaderMap::new(),
            body: String::from_str("Invalid credentials"),
        },
        AppError::NotFound(id) => {
            let mut body = String::from_str("User ");
            let num = u64_to_string(*id);
            body.append(num.as_str());
            body.append(" not found");
            Response { status: STATUS_NOT_FOUND, headers: HeaderMap::new(), body }
        },
        AppError::Unavailable => Response {
            status: STATUS_UNAVAILABLE,
            headers: HeaderMap::new(),
            body: String::from_str("Database unavailable"),
        },
        AppError::Internal => Response {
            status: STATUS_INTERNAL_ERROR,
            headers: HeaderMap::new(),
            body: String::from_str("Internal server error"),
        },
    }
}

/// Character-for-character equality of two strings.
pub fn str_eq(a: &str, b: &str) -> (r: bool)
    ensures
        r == (a@ == b@),
{
    let alen = a.unicode_len();
    let blen = b.unicode_len();
    if alen != blen {
        return false;
    }
    for i in 0..alen
        invariant
            alen == a@.len(),
            alen == b@.len(),
            forall|j: int| 0 <= j < i ==> a@[j] == b@[j],
    {
        if a.get_char(i) != b.get_char(i) {
            return false;
        }
    }
    assert(a@ =~= b@);
    true
}

/// The login decision: the one accepted pair gets a plain success,
/// everything else the unauthorized failure's response.
pub fn login(username: &str, password: &str) -> (r: Result<Response, AppError>)
    ensures
        username@ == "admin"@ && password@ == "password"@ ==> (r matches Ok(resp) && resp@ == (
        ResponseV {
            status: STATUS_OK,
            headers: Seq::empty(),
            body: "Logged in"@,
        })),
        !(username@ == "admin"@ && password@ == "password"@) ==> (r matches Err(e) && e
            == AppError::Unauthorized),
{
    if str_eq(username, "admin") && str_eq(password, "password") {
        Ok(Response {
            status: STATUS_OK,
            headers: HeaderMap::new(),
            body: String::from_str("Logged in"),
        })
    } else {
        Err(AppError::Unauthorized)
    }
}

} // verus!
