//! Credentials and how long they last.

use crate::clock::{clock_time, unix_now, LAST_SECOND};
use crate::text::copy_text;
use vstd::prelude::*;

verus! {

/// How many seconds before its expiry a token counts as expired.
pub const EXPIRY_SKEW: i64 = 60;

/// Persisted credentials for one remote MCP server.
#[derive(Debug)]
pub struct McpOAuthTokens {
    pub access_token: String,
    pub refresh_token: Option<String>,
    /// Unix seconds. 0 means "no known expiry".
    pub expires_at: i64,
    /// Client id issued by dynamic registration, reused across refreshes.
    pub client_id: Option<String>,
    pub token_endpoint: Option<String>,
    /// Redirect URI registered with the dynamic OAuth client.
    ///
    /// Dynamic clients are bound to their redirect URI. Reusing a stored
    /// client id with a newly allocated loopback port makes a provider reject
    /// the authorization request, often as an opaque internal server error.
    pub redirect_uri: Option<String>,
}

/// Credentials as a mathematical value.
#[verifier::ext_equal]
pub struct Tokens {
    pub access_token: Seq<char>,
    pub refresh_token: Option<Seq<char>>,
    pub expires_at: i64,
    pub client_id: Option<Seq<char>>,
    pub token_endpoint: Option<Seq<char>>,
    pub redirect_uri: Option<Seq<char>>,
}

impl DeepView for McpOAuthTokens {
    type V = Tokens;

    open spec fn deep_view(&self) -> Tokens {
        Tokens {
            access_token: self.access_token@,
            refresh_token: self.refresh_token.deep_view(),
            expires_at: self.expires_at,
            client_id: self.client_id.deep_view(),
            token_endpoint: self.token_endpoint.deep_view(),
            redirect_uri: self.redirect_uri.deep_view(),
        }
    }
}

impl Clone for McpOAuthTokens {
    fn clone(&self) -> (r: Self)
        ensures
            r.deep_view() == self.deep_view(),
    {
        McpOAuthTokens {
            access_token: self.access_token.clone(),
            refresh_token: copy_text(&self.refresh_token),
            expires_at: self.expires_at,
            client_id: copy_text(&self.client_id),
            token_endpoint: copy_text(&self.token_endpoint),
            redirect_uri: copy_text(&self.redirect_uri),
        }
    }
}

/// Whether a token that expires at `expires_at` counts as expired at `now`.
pub open spec fn expired(expires_at: i64, now: i64) -> bool {
    expires_at > 0 && now >= expires_at - EXPIRY_SKEW
}

impl McpOAuthTokens {
    /// Whether the token counts as expired at `now`, in Unix seconds.
    pub fn is_expired_at(&self, now: i64) -> (r: bool)
        ensures
            r == expired(self.expires_at, now),
    {
        self.expires_at > 0 && now >= self.expires_at - EXPIRY_SKEW
    }

    /// Whether the token counts as expired at this moment.
    pub fn is_expired(&self) -> (r: bool)
        ensures
            exists|now: i64| #[trigger] clock_time(now) && r == expired(self.expires_at, now),
            self.expires_at <= 0 ==> !r,
    {
        let now = unix_now();
        self.is_expired_at(now)
    }
}

/// What a token endpoint answers.
#[derive(Debug)]
pub struct TokenResponse {
    pub access_token: String,
    pub refresh_token: Option<String>,
    /// How many seconds the token lasts, where the server says so.
    pub expires_in: Option<i64>,
}

impl TokenResponse {
    /// Whether the time of expiry can be told in 64 bits at `now`.
    pub open spec fn countable_at(self, now: i64) -> bool {
        self.expires_in matches Some(secs) ==> i64::MIN <= now + secs <= i64::MAX
    }

    /// Whether the time of expiry can be told in 64 bits whatever the clock shows.
    pub open spec fn countable(self) -> bool {
        self.expires_in matches Some(secs) ==> secs <= i64::MAX - LAST_SECOND
    }
}

impl TokenResponse {
    /// Whether the time of expiry can be told in 64 bits whatever the clock shows.
    pub fn is_countable(&self) -> (r: bool)
        ensures
            r == self.countable(),
    {
        match self.expires_in {
            Some(secs) => secs <= i64::MAX - LAST_SECOND,
            None => true,
        }
    }
}

/// When a token expires that was issued at `now`: 0 where the server does not say.
pub open spec fn expiry(expires_in: Option<i64>, now: i64) -> i64 {
    match expires_in {
        Some(secs) => (now + secs) as i64,
        None => 0,
    }
}

fn expiry_at(expires_in: Option<i64>, now: i64) -> (r: i64)
    requires
        expires_in matches Some(secs) ==> i64::MIN <= now + secs <= i64::MAX,
    ensures
        r == expiry(expires_in, now),
{
    match expires_in {
        Some(secs) => now + secs,
        None => 0,
    }
}

/// The credentials that a code exchange at `now` yields.
pub open spec fn exchanged(
    response: TokenResponse,
    now: i64,
    client_id: Seq<char>,
    token_endpoint: Seq<char>,
    redirect_uri: Seq<char>,
) -> Tokens {
    Tokens {
        access_token: response.access_token@,
        refresh_token: response.refresh_token.deep_view(),
        expires_at: expiry(response.expires_in, now),
        client_id: Some(client_id),
        token_endpoint: Some(token_endpoint),
        redirect_uri: Some(redirect_uri),
    }
}

/// The credentials that a code exchange at `now` yields.
pub fn exchanged_at(
    response: TokenResponse,
    now: i64,
    client_id: String,
    token_endpoint: String,
    redirect_uri: String,
) -> (r: McpOAuthTokens)
    requires
        response.countable_at(now),
    ensures
        r.deep_view() == exchanged(response, now, client_id@, token_endpoint@, redirect_uri@),
{
    McpOAuthTokens {
        access_token: response.access_token,
        refresh_token: response.refresh_token,
        expires_at: expiry_at(response.expires_in, now),
        client_id: Some(client_id),
        token_endpoint: Some(token_endpoint),
        redirect_uri: Some(redirect_uri),
    }
}

/// The credentials that a code exchange yields at this moment.
pub fn exchanged_now(
    response: TokenResponse,
    client_id: String,
    token_endpoint: String,
    redirect_uri: String,
) -> (r: McpOAuthTokens)
    requires
        response.countable(),
    ensures
        exists|now: i64| #[trigger]
            clock_time(now) && r.deep_view() == exchanged(
                response,
                now,
                client_id@,
                token_endpoint@,
                redirect_uri@,
            ),
{
    let now = unix_now();
    exchanged_at(response, now, client_id, token_endpoint, redirect_uri)
}

/// The credentials that a refresh of `tokens` at `now` yields. A server that sends
/// no new refresh token leaves the old one in force.
pub open spec fn refreshed(tokens: Tokens, response: TokenResponse, now: i64) -> Tokens {
    Tokens {
        access_token: response.access_token@,
        refresh_token: if response.refresh_token is Some {
            response.refresh_token.deep_view()
        } else {
            tokens.refresh_token
        },
        expires_at: expiry(response.expires_in, now),
        ..tokens
    }
}

/// The credentials that a refresh of `tokens` at `now` yields.
pub fn refreshed_at(tokens: &McpOAuthTokens, response: TokenResponse, now: i64) -> (r:
    McpOAuthTokens)
    requires
        response.countable_at(now),
    ensures
        r.deep_view() == refreshed(tokens.deep_view(), response, now),
{
    let expires_at = expiry_at(response.expires_in, now);
    let refresh_token = match response.refresh_token {
        Some(token) => Some(token),
        None => copy_text(&tokens.refresh_token),
    };
    McpOAuthTokens {
        access_token: response.access_token,
        refresh_token,
        expires_at,
        client_id: copy_text(&tokens.client_id),
        token_endpoint: copy_text(&tokens.token_endpoint),
        redirect_uri: copy_text(&tokens.redirect_uri),
    }
}

/// A token that lasts longer than the skew is not expired when it is issued and
/// is expired from the skew before its end on.
pub proof fn fresh_tokens_are_not_expired(secs: i64, now: i64, later: i64)
    requires
        clock_time(now),
        EXPIRY_SKEW < secs <= i64::MAX - LAST_SECOND,
    ensures
        !expired(expiry(Some(secs), now), now),
        expired(expiry(Some(secs), now), later) <==> later >= now + secs - EXPIRY_SKEW,
{
}

/// Credentials without a known expiry never count as expired.
pub proof fn unknown_expiry_is_not_expiry(now: i64)
    ensures
        !expired(expiry(None, now), now),
        !expired(0, now),
{
}

/// A refresh keeps the client, its redirect URI and the token endpoint, and never
/// loses the ability to refresh again.
pub proof fn refresh_keeps_the_client(tokens: Tokens, response: TokenResponse, now: i64)
    ensures
        refreshed(tokens, response, now).client_id == tokens.client_id,
        refreshed(tokens, response, now).redirect_uri == tokens.redirect_uri,
        refreshed(tokens, response, now).token_endpoint == tokens.token_endpoint,
        tokens.refresh_token is Some ==> refreshed(tokens, response, now).refresh_token is Some,
{
}

/// Credentials are seen with all that they hold.
pub proof fn tokens_are_seen_whole(tokens: McpOAuthTokens)
    ensures
        tokens.deep_view().access_token == tokens.access_token@,
        tokens.deep_view().refresh_token == tokens.refresh_token.deep_view(),
        tokens.deep_view().expires_at == tokens.expires_at,
        tokens.deep_view().client_id == tokens.client_id.deep_view(),
        tokens.deep_view().token_endpoint == tokens.token_endpoint.deep_view(),
        tokens.deep_view().redirect_uri == tokens.redirect_uri.deep_view(),
{
}

/// A token counts as expired from a minute before its expiry on, unless the expiry is
/// not known.
pub proof fn expiry_counts_from_a_minute_before(expires_at: i64, now: i64)
    ensures
        expired(expires_at, now) <==> 0 < expires_at && expires_at - now <= 60,
{
}

/// A lifetime is counted from now; without one the expiry is not known.
pub proof fn lifetimes_count_from_now(secs: i64, now: i64)
    requires
        i64::MIN <= now + secs <= i64::MAX,
    ensures
        expiry(Some(secs), now) - now == secs,
        expiry(None, now) == 0,
{
}

/// An exchange keeps what the provider sent and what the exchange was made with,
/// each whatever the other is.
pub proof fn exchanges_keep_all_they_have(
    response: TokenResponse,
    now: i64,
    client_id: Seq<char>,
    token_endpoint: Seq<char>,
    redirect_uri: Seq<char>,
)
    ensures
        ({
            let kept = exchanged(response, now, client_id, token_endpoint, redirect_uri);
            &&& kept.access_token == response.access_token@
            &&& response.refresh_token is Some ==> kept.refresh_token == Some(
                response.refresh_token->0@,
            )
            &&& response.refresh_token is None ==> kept.refresh_token is None
            &&& response.expires_in is None ==> kept.expires_at == 0
            &&& response.countable_at(now) && response.expires_in is Some ==> kept.expires_at
                - now == response.expires_in->0
            &&& kept.client_id == Some(client_id)
            &&& kept.token_endpoint == Some(token_endpoint)
            &&& kept.redirect_uri == Some(redirect_uri)
        }),
{
}

/// A refresh replaces the access token and its expiry, and the refresh token where the
/// provider sent one; everything else stays as it was.
pub proof fn refreshes_replace_what_was_sent(tokens: Tokens, response: TokenResponse, now: i64)
    ensures
        ({
            let kept = refreshed(tokens, response, now);
            &&& kept.access_token == response.access_token@
            &&& response.refresh_token is Some ==> kept.refresh_token == Some(
                response.refresh_token->0@,
            )
            &&& response.refresh_token is None ==> kept.refresh_token == tokens.refresh_token
            &&& response.expires_in is None ==> kept.expires_at == 0
            &&& response.countable_at(now) && response.expires_in is Some ==> kept.expires_at
                - now == response.expires_in->0
            &&& kept.client_id == tokens.client_id
            &&& kept.token_endpoint == tokens.token_endpoint
            &&& kept.redirect_uri == tokens.redirect_uri
        }),
{
}

/// A lifetime is countable at a moment exactly where 64 bits hold the time of its end,
/// and whatever the clock shows where they hold it at each of its times.
pub proof fn countable_lifetimes_fit(response: TokenResponse, now: i64)
    requires
        0 <= now <= LAST_SECOND,
    ensures
        response.expires_in is None ==> response.countable() && response.countable_at(now),
        response.expires_in is Some ==> (response.countable_at(now) <==> now
            + response.expires_in->0 <= i64::MAX),
        response.countable() ==> response.countable_at(now),
        response.expires_in is Some && LAST_SECOND + response.expires_in->0 <= i64::MAX
            ==> response.countable(),
{
}

} // verus!
