//! Token authentication: query param or bearer header, constant-time compare.

use crate::text;
use vstd::prelude::*;

verus! {

/// Calls `subtle::ConstantTimeEq::ct_eq` on two byte slices and turns its
/// `Choice` into a `bool`: whether they have the same length and bytes. That
/// the time taken does not depend on the contents is not stated.
#[verifier::external_body]
fn ct_same(a: &[u8], b: &[u8]) -> (r: bool)
    ensures
        r == (a@ == b@),
{
    subtle::ConstantTimeEq::ct_eq(a, b).into()
}

/// The token in an authorization header: what follows `Bearer `, without
/// surrounding space.
pub open spec fn bearer_of(header: Option<Seq<char>>) -> Option<Seq<char>> {
    match header {
        None => None,
        Some(value) => match text::after_prefix(value, "Bearer "@) {
            None => None,
            Some(rest) => Some(text::trimmed(rest)),
        },
    }
}

/// Whether a request may pass: nothing is configured, or the query token, else
/// the bearer token, is the configured one.
pub open spec fn may_pass(
    configured: Option<Seq<char>>,
    query_token: Option<Seq<char>>,
    header: Option<Seq<char>>,
) -> bool {
    match configured {
        None => true,
        Some(expected) => match query_token {
            Some(token) => token == expected,
            None => bearer_of(header) == Some(expected),
        },
    }
}

fn same_token(a: &str, b: &str) -> (r: bool)
    ensures
        r == (a@ == b@),
{
    let x = a.as_bytes();
    let y = b.as_bytes();
    proof {
        vstd::utf8::encode_utf8_decode_utf8(a@);
        vstd::utf8::encode_utf8_decode_utf8(b@);
    }
    ct_same(x, y)
}

/// Checks a request's credentials against the configured token.
///
/// `None` config means auth is disabled. The candidate is the `token` query
/// parameter when present, otherwise a `Bearer` authorization header.
/// Comparison is constant-time in the token contents.
pub fn authorized(
    configured: Option<&str>,
    query_token: Option<&str>,
    authorization_header: Option<&str>,
) -> (r: bool)
    ensures
        r == may_pass(
            text::opt_str(configured),
            text::opt_str(query_token),
            text::opt_str(authorization_header),
        ),
{
    let expected = match configured {
        Some(expected) => expected,
        None => {
            return true;
        },
    };
    if let Some(token) = query_token {
        return same_token(expected, token);
    }
    match authorization_header {
        None => false,
        Some(value) => match text::strip_prefix(value, "Bearer ") {
            None => false,
            Some(rest) => same_token(expected, text::trim(rest.as_str()).as_str()),
        },
    }
}

/// With a token configured, a request without credentials never passes.
pub proof fn credentials_are_required(expected: Seq<char>)
    ensures
        !may_pass(Some(expected), None, None),
{
}

/// A wrong query token is not made up for by the header.
pub proof fn query_token_takes_precedence(
    expected: Seq<char>,
    token: Seq<char>,
    header: Option<Seq<char>>,
)
    requires
        token != expected,
    ensures
        !may_pass(Some(expected), Some(token), header),
{
}

} // verus!
