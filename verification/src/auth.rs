//! Bearer-token authentication for request handling.
//!
//! The header parsing and the outcome handling are verified; the
//! credential check itself — signature and expiry of the token — is the
//! external verifier's, behind one trusted wrapper.

use vstd::prelude::*;
use vstd::string::StrSliceExecFns;

verus! {

/// Why a request carried no acceptable identity.
#[derive(Clone, Copy, Debug, PartialEq, Eq, Structural)]
pub enum AuthError {
    /// No authorization header was sent.
    MissingToken,
    /// The header does not carry a bearer token.
    MalformedHeader,
    /// The token failed verification: bad signature, shape, or expired.
    InvalidToken,
}

impl AuthError {
    /// Status code a transport boundary reports: the caller is not
    /// authenticated, whichever way the check failed.
    pub fn http_status(&self) -> (s: u16)
        ensures
            s == 401,
    {
        401
    }
}

/// The header value carries a bearer token: it starts with the scheme
/// name and one space.
pub open spec fn is_bearer(h: Seq<char>) -> bool {
    &&& h.len() >= 7
    &&& h[0] == 'B'
    &&& h[1] == 'e'
    &&& h[2] == 'a'
    &&& h[3] == 'r'
    &&& h[4] == 'e'
    &&& h[5] == 'r'
    &&& h[6] == ' '
}

/// What follows the scheme prefix.
pub open spec fn bearer_token(h: Seq<char>) -> Seq<char> {
    h.subrange(7, h.len() as int)
}

/// Split the token out of an authorization header value.
pub fn strip_bearer<'a>(h: &'a str) -> (r: Option<&'a str>)
    ensures
        match r {
            Some(t) => is_bearer(h@) && t@ == bearer_token(h@),
            None => !is_bearer(h@),
        },
{
    let n = h.unicode_len();
    if n < 7 {
        return None;
    }
    if h.get_char(0) != 'B' {
        return None;
    }
    if h.get_char(1) != 'e' {
        return None;
    }
    if h.get_char(2) != 'a' {
        return None;
    }
    if h.get_char(3) != 'r' {
        return None;
    }
    if h.get_char(4) != 'e' {
        return None;
    }
    if h.get_char(5) != 'r' {
        return None;
    }
    if h.get_char(6) != ' ' {
        return None;
    }
    Some(h.substring_char(7, n))
}

/// Relies on `jsonwebtoken::decode` with HS256: returns the `sub` claim
/// of a token whose signature verifies against `secret` and whose `exp`
/// has not passed.  The outcome also depends on the clock, so nothing is
/// promised about it.
#[verifier::external_body]
fn verify_token(token: &str, secret: &[u8]) -> (r: Option<String>) {
    let key = jsonwebtoken::DecodingKey::from_secret(secret);
    let validation = jsonwebtoken::Validation::new(jsonwebtoken::Algorithm::HS256);
    match jsonwebtoken::decode::<serde_json::Value>(token, &key, &validation) {
        Ok(data) => match data.claims.get("sub") {
            Some(v) => v.as_str().map(|s| s.to_string()),
            None => None,
        },
        Err(_) => None,
    }
}

/// What the handler does with the outcome of the credential check: a
/// recovered subject is the caller's identity, a rejection refuses the
/// request as unauthorized.
pub fn token_outcome(verified_subject: Option<String>) -> (r: Result<String, AuthError>)
    ensures
        match verified_subject {
            Some(sub) => r == Ok::<String, AuthError>(sub),
            None => r == Err::<String, AuthError>(AuthError::InvalidToken),
        },
{
    match verified_subject {
        Some(sub) => Ok(sub),
        None => Err(AuthError::InvalidToken),
    }
}

/// Authenticate a request from its authorization header.
///
/// A missing header, one without the bearer scheme, and a token the
/// verifier rejects are each refused with their own error; only a header
/// whose token the external check accepted yields an identity.
pub fn authenticate(header: Option<&str>, secret: &[u8]) -> (r: Result<String, AuthError>)
    ensures
        (header is None) == (r == Err::<String, AuthError>(AuthError::MissingToken)),
        header matches Some(h) ==> (!is_bearer(h@)) == (r == Err::<String, AuthError>(
            AuthError::MalformedHeader,
        )),
        header matches Some(h) && is_bearer(h@) ==> (r is Ok || r == Err::<String, AuthError>(
            AuthError::InvalidToken,
        )),
{
    match header {
        None => Err(AuthError::MissingToken),
        Some(h) => match strip_bearer(h) {
            None => Err(AuthError::MalformedHeader),
            Some(token) => token_outcome(verify_token(token, secret)),
        },
    }
}

} // verus!
