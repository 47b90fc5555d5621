//! What the transports share: how an answer is read, and how a request is
//! authenticated.

use crate::error::McpError;
use crate::oauth::tokens::{expired, McpOAuthTokens, Tokens};
use vstd::prelude::*;

verus! {

/// Whether an HTTP status tells of success.
pub open spec fn success(status: u16) -> bool {
    200 <= status < 300
}

/// Whether an HTTP status tells of success.
pub fn is_success(status: u16) -> (r: bool)
    ensures
        r == success(status),
{
    200 <= status && status < 300
}

/// The head of a server's answer. A header whose value is not text counts as
/// absent.
#[derive(Debug)]
pub struct ResponseHead {
    pub status: u16,
    /// The `www-authenticate` header.
    pub challenge: Option<String>,
    /// The `mcp-session-id` header.
    pub session_id: Option<String>,
    /// The `content-type` header.
    pub content_type: Option<String>,
}

/// A request to be sent: where to, its headers in order, and its body. A request
/// without a body is a `GET`, any other a `POST`.
#[derive(Debug)]
pub struct OutgoingRequest {
    pub url: String,
    pub headers: Vec<(String, String)>,
    pub body: Option<String>,
}

/// `OutgoingRequest` as a mathematical value.
#[verifier::ext_equal]
pub struct Outgoing {
    pub url: Seq<char>,
    pub headers: Seq<(Seq<char>, Seq<char>)>,
    pub body: Option<Seq<char>>,
}

impl DeepView for OutgoingRequest {
    type V = Outgoing;

    open spec fn deep_view(&self) -> Outgoing {
        Outgoing {
            url: self.url@,
            headers: self.headers.deep_view(),
            body: self.body.deep_view(),
        }
    }
}

/// What to do next to get at a usable access token.
#[derive(Debug)]
pub enum AuthStep {
    /// Nothing: there is one.
    Ready,
    /// Refresh these credentials.
    Refresh(McpOAuthTokens),
    /// Find out whether a browser may be opened now.
    CheckCooldown,
    /// Sign in with a browser.
    Authorize,
    /// Give up.
    Fail(McpError),
}

/// Whether credentials can be used as they are: they are not expired, and no
/// challenge of the server puts them in doubt.
pub open spec fn in_force(tokens: Tokens, challenged: bool, now: i64) -> bool {
    !expired(tokens.expires_at, now) && !challenged
}

/// Whether `step` says that the user has to sign in and no browser may be opened.
pub open spec fn sign_in_required(step: AuthStep, server: Seq<char>) -> bool {
    &&& step matches AuthStep::Fail(error)
    &&& error matches McpError::SignInRequired { server: named }
    &&& named@ == server
}

/// The value of the `authorization` header that `tokens` call for.
pub open spec fn bearer_value(tokens: Option<Tokens>) -> Option<Seq<char>> {
    match tokens {
        Some(tokens) => Some("Bearer "@ + tokens.access_token),
        None => None,
    }
}

/// The value of the `authorization` header that `tokens` call for.
pub fn authorization_value(tokens: &Option<McpOAuthTokens>) -> (r: Option<String>)
    ensures
        r.deep_view() == bearer_value(tokens.deep_view()),
{
    match tokens {
        Some(tokens) => {
            let mut value = "Bearer ".to_owned();
            value.append(tokens.access_token.as_str());
            Some(value)
        },
        None => None,
    }
}

/// A status tells of success exactly where it is in the two hundreds.
pub proof fn success_is_in_the_two_hundreds(status: u16)
    ensures
        success(status) <==> status / 100 == 2,
{
}

/// Credentials are used as they are exactly where no challenge puts them in doubt and
/// they have no known expiry or more than a minute left.
pub proof fn doubt_and_expiry_end_the_force(tokens: Tokens, now: i64)
    ensures
        !in_force(tokens, true, now),
        in_force(tokens, false, now) <==> tokens.expires_at <= 0 || tokens.expires_at - now > 60,
{
}

/// A bearer value is the access token behind the word for it, and there is one exactly
/// where there are credentials.
pub proof fn bearers_are_access_tokens(tokens: Tokens)
    ensures
        bearer_value(Some(tokens)) is Some,
        bearer_value(Some(tokens))->0.len() == 7 + tokens.access_token.len(),
        bearer_value(Some(tokens))->0.take(7) == "Bearer "@,
        bearer_value(Some(tokens))->0.skip(7) == tokens.access_token,
        bearer_value(None) is None,
{
    reveal_strlit("Bearer ");
    let value = bearer_value(Some(tokens))->0;
    assert(value.take(7) =~= "Bearer "@);
    assert(value.skip(7) =~= tokens.access_token);
}

/// A request is seen with all that is sent.
pub proof fn requests_are_seen_whole(request: OutgoingRequest)
    ensures
        request.deep_view().url == request.url@,
        request.deep_view().headers == request.headers.deep_view(),
        request.deep_view().body == request.body.deep_view(),
{
}

} // verus!
