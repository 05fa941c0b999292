//! The decisions around a session: where the token is taken from, which
//! requests pass without one, and how a failure of the user store is told.

use crate::errors::{error_body, error_body_text, ErrorResponse, UserError, UserErrorView, STATUS_UNAUTHORIZED};
use crate::text::{same_text, strip_prefix, stripped};
use vstd::prelude::*;

verus! {

/// The token of an `Authorization` header, where the header is one of the
/// bearer scheme.
pub open spec fn bearer_token_text(header: Seq<char>) -> Option<Seq<char>> {
    stripped(header, "Bearer "@)
}

/// Takes the token out of an `Authorization` header of the bearer scheme.
pub fn bearer_token(header: &str) -> (r: Option<&str>)
    ensures
        match r {
            Some(token) => bearer_token_text(header@) == Some(token@),
            None => bearer_token_text(header@) is None,
        },
{
    strip_prefix(header, "Bearer ")
}

/// What is done with a request on a route that needs a session.
#[derive(Clone, Debug, PartialEq, Eq)]
pub enum RequiredAuth<'a> {
    /// A preflight request: let it through as it is.
    Pass,
    /// Check this token, and go on as its user.
    Verify(&'a str),
    /// Answer with this response.
    Refuse(ErrorResponse),
}

/// What is done with a request on a route that takes a session or none.
#[derive(Clone, Debug, PartialEq, Eq)]
pub enum OptionalAuth<'a> {
    /// A preflight request: let it through as it is.
    Pass,
    /// Check this token; go on as its user, or as nobody where it fails.
    Verify(&'a str),
    /// Go on as nobody.
    Anonymous,
}

/// The token that a header carries, if there is a header and it is one of
/// the bearer scheme.
pub open spec fn presented_token(authorization: Option<&str>) -> Option<Seq<char>> {
    match authorization {
        Some(header) => bearer_token_text(header@),
        None => None,
    }
}

/// The answer for a failure to authenticate: not authorized, with the
/// message in a JSON body.
pub fn unauthorized(message: &str) -> (r: ErrorResponse)
    ensures
        r.status == STATUS_UNAUTHORIZED,
        r.body@ == error_body_text(message@),
{
    ErrorResponse { status: STATUS_UNAUTHORIZED, body: error_body(message) }
}

/// Decides on a request to a route that needs a session. A preflight
/// request passes. A request without a bearer token is refused as not
/// authorized. Any other has its token checked.
pub fn require_auth<'a>(is_preflight: bool, authorization: Option<&'a str>) -> (r: RequiredAuth<
    'a,
>)
    ensures
        is_preflight ==> r is Pass,
        !is_preflight ==> match presented_token(authorization) {
            Some(token) => r matches RequiredAuth::Verify(t) && t@ == token,
            None => r matches RequiredAuth::Refuse(response) && response.status
                == STATUS_UNAUTHORIZED && response.body@ == error_body_text(
                "Missing authorization header"@,
            ),
        },
{
    if is_preflight {
        return RequiredAuth::Pass;
    }
    let token = match authorization {
        Some(header) => bearer_token(header),
        None => None,
    };
    match token {
        Some(t) => RequiredAuth::Verify(t),
        None => RequiredAuth::Refuse(unauthorized("Missing authorization header")),
    }
}

/// The answer where a token was checked and belongs to no user.
pub fn refuse_unknown_user() -> (r: ErrorResponse)
    ensures
        r.status == STATUS_UNAUTHORIZED,
        r.body@ == error_body_text("Invalid token"@),
{
    unauthorized("Invalid token")
}

/// Decides on a request to a route that takes a session or none. A
/// preflight request passes. A request without a bearer token goes on as
/// nobody. Any other has its token checked.
pub fn optional_auth<'a>(is_preflight: bool, authorization: Option<&'a str>) -> (r: OptionalAuth<
    'a,
>)
    ensures
        is_preflight ==> r is Pass,
        !is_preflight ==> match presented_token(authorization) {
            Some(token) => r matches OptionalAuth::Verify(t) && t@ == token,
            None => r is Anonymous,
        },
{
    if is_preflight {
        return OptionalAuth::Pass;
    }
    let token = match authorization {
        Some(header) => bearer_token(header),
        None => None,
    };
    match token {
        Some(t) => OptionalAuth::Verify(t),
        None => OptionalAuth::Anonymous,
    }
}

/// How a failure of the user store is told, given the constraint that the
/// store names, if any, and its report.
pub open spec fn user_store_failure_view(constraint: Option<Seq<char>>, detail: Seq<char>)
    -> UserErrorView {
    if constraint == Some("users_google_id_key"@) {
        UserErrorView::Conflict("User with this Google ID already exists"@, detail)
    } else {
        UserErrorView::Unknown("Failed to find or create user"@, detail)
    }
}

/// Tells a failure of the user store: a conflict where the store refused a
/// second user with the same provider identifier, an unknown failure else.
pub fn user_store_failure(constraint: Option<&str>, detail: String) -> (e: UserError)
    ensures
        e@ == user_store_failure_view(
            match constraint {
                Some(c) => Some(c@),
                None => None,
            },
            detail@,
        ),
{
    let conflict = match constraint {
        Some(c) => same_text(c, "users_google_id_key"),
        None => false,
    };
    if conflict {
        UserError::Conflict(String::from_str("User with this Google ID already exists"), detail)
    } else {
        UserError::Unknown(String::from_str("Failed to find or create user"), detail)
    }
}

} // verus!
