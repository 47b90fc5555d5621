//! The state of a streamable HTTP connection and the course of one exchange.

use crate::clock::{clock_time, unix_now};
use crate::error::{quote_detail, quoted_detail, McpError};
use crate::oauth::tokens::{expired, McpOAuthTokens, Tokens};
use crate::protocol::{
    append_copies, append_pair, copy_oauth_config, copy_pairs, McpOAuthConfig, McpServerConfig,
    OAuthConfig,
};
use crate::text::{
    beginnings_are_prefixes, begins_with, contains_text, copy_text, has_text, lower_chars,
    lower_text, parts_are_contained, starts_with, to_chars,
};
use crate::transport::{
    authorization_value, bearer_value, in_force, is_success, sign_in_required, success, AuthStep,
    Outgoing, OutgoingRequest, ResponseHead,
};
use vstd::prelude::*;

verus! {

/// A connection as a mathematical value.
#[verifier::ext_equal]
pub struct HttpState {
    pub name: Seq<char>,
    pub url: Seq<char>,
    pub extra_headers: Seq<(Seq<char>, Seq<char>)>,
    pub oauth: Option<OAuthConfig>,
    pub session_id: Option<Seq<char>>,
    pub tokens: Option<Tokens>,
    pub interactive: bool,
}

impl HttpState {
    /// The state after an answer with the given session header.
    pub open spec fn with_session(self, header: Option<Seq<char>>) -> HttpState {
        HttpState {
            session_id: if header is Some {
                header
            } else {
                self.session_id
            },
            ..self
        }
    }

    /// The state with other credentials.
    pub open spec fn with_tokens(self, tokens: Tokens) -> HttpState {
        HttpState { tokens: Some(tokens), ..self }
    }

    /// The headers of a request, in order.
    pub open spec fn headers(self) -> Seq<(Seq<char>, Seq<char>)> {
        let always = seq![
            ("content-type"@, "application/json"@),
            ("accept"@, "application/json, text/event-stream"@),
        ];
        let with_session = match self.session_id {
            Some(id) => always.push(("mcp-session-id"@, id)),
            None => always,
        };
        let with_token = match bearer_value(self.tokens) {
            Some(value) => with_session.push(("authorization"@, value)),
            None => with_session,
        };
        with_token + self.extra_headers
    }

    /// Whether `step` is how a sign-in starts: only where a browser may be opened
    /// at all.
    pub open spec fn signs_in(self, step: AuthStep) -> bool {
        if self.interactive {
            step is CheckCooldown
        } else {
            sign_in_required(step, self.name)
        }
    }

    /// Whether `step` is how a usable access token is got at `now`.
    pub open spec fn authenticates(self, step: AuthStep, challenged: bool, now: i64) -> bool {
        match self.tokens {
            Some(tokens) => if in_force(tokens, challenged, now) {
                step is Ready
            } else {
                step matches AuthStep::Refresh(old) && old.deep_view() == tokens
            },
            None => self.signs_in(step),
        }
    }
}

/// A connection to a streamable HTTP server.
#[derive(Debug)]
pub struct HttpTransport {
    name: String,
    url: String,
    extra_headers: Vec<(String, String)>,
    oauth_config: Option<McpOAuthConfig>,
    session_id: Option<String>,
    tokens: Option<McpOAuthTokens>,
    /// Whether an interactive browser flow may be started for this server.
    interactive: bool,
}

impl DeepView for HttpTransport {
    type V = HttpState;

    closed spec fn deep_view(&self) -> HttpState {
        HttpState {
            name: self.name@,
            url: self.url@,
            extra_headers: self.extra_headers.deep_view(),
            oauth: self.oauth_config.deep_view(),
            session_id: self.session_id.deep_view(),
            tokens: self.tokens.deep_view(),
            interactive: self.interactive,
        }
    }
}

impl HttpTransport {
    /// A connection to the configured server, with the credentials that were saved
    /// for it.
    pub fn new(
        name: String,
        config: &McpServerConfig,
        tokens: Option<McpOAuthTokens>,
        interactive: bool,
    ) -> (r: Result<Self, McpError>)
        ensures
            match config.url {
                Some(url) => {
                    &&& r matches Ok(transport)
                    &&& transport.deep_view() == (HttpState {
                        name: name@,
                        url: url@,
                        extra_headers: config.headers.deep_view(),
                        oauth: config.oauth.deep_view(),
                        session_id: None,
                        tokens: tokens.deep_view(),
                        interactive,
                    })
                },
                None => r matches Err(error) && error is HttpWithoutUrl,
            },
    {
        let url = match copy_text(&config.url) {
            Some(url) => url,
            None => {
                return Err(McpError::HttpWithoutUrl);
            },
        };
        Ok(
            HttpTransport {
                name,
                url,
                extra_headers: copy_pairs(config.headers.as_slice()),
                oauth_config: copy_oauth_config(&config.oauth),
                session_id: None,
                tokens,
                interactive,
            },
        )
    }

    /// The name of the server.
    pub fn name(&self) -> (r: &str)
        ensures
            r@ == self.deep_view().name,
    {
        self.name.as_str()
    }

    /// The URL of the server.
    pub fn url(&self) -> (r: &str)
        ensures
            r@ == self.deep_view().url,
    {
        self.url.as_str()
    }

    /// What the configuration says about the OAuth provider.
    pub fn oauth_config(&self) -> (r: Option<McpOAuthConfig>)
        ensures
            r.deep_view() == self.deep_view().oauth,
    {
        copy_oauth_config(&self.oauth_config)
    }

    /// The session that the server has opened.
    pub fn session(&self) -> (r: Option<String>)
        ensures
            r.deep_view() == self.deep_view().session_id,
    {
        copy_text(&self.session_id)
    }

    /// Remembers the session that an answer names; an answer that names none
    /// changes nothing.
    pub fn store_session(&mut self, header: &Option<String>)
        ensures
            final(self).deep_view() == old(self).deep_view().with_session(header.deep_view()),
    {
        if let Some(id) = header {
            self.session_id = Some(id.clone());
        }
    }

    /// The access token that requests carry.
    pub fn bearer(&self) -> (r: Option<String>)
        ensures
            r.deep_view() == (match self.deep_view().tokens {
                Some(tokens) => Some(tokens.access_token),
                None => None,
            }),
    {
        match &self.tokens {
            Some(tokens) => Some(tokens.access_token.clone()),
            None => None,
        }
    }

    /// The request that sends one JSON-RPC message.
    pub fn send(&self, body: &str) -> (r: OutgoingRequest)
        ensures
            r.deep_view() == (Outgoing {
                url: self.deep_view().url,
                headers: self.deep_view().headers(),
                body: Some(body@),
            }),
    {
        let mut headers: Vec<(String, String)> = Vec::new();
        append_pair(&mut headers, "content-type", "application/json");
        append_pair(&mut headers, "accept", "application/json, text/event-stream");
        assert(headers.deep_view() =~= seq![
            ("content-type"@, "application/json"@),
            ("accept"@, "application/json, text/event-stream"@),
        ]);
        if let Some(id) = &self.session_id {
            append_pair(&mut headers, "mcp-session-id", id.as_str());
        }
        if let Some(value) = authorization_value(&self.tokens) {
            append_pair(&mut headers, "authorization", value.as_str());
        }
        append_copies(&mut headers, self.extra_headers.as_slice());
        OutgoingRequest { url: self.url.clone(), headers, body: Some(body.to_owned()) }
    }

    /// How a usable access token is got at `now`, after the given challenge.
    pub fn start_auth_at(&self, challenge: Option<&str>, now: i64) -> (r: AuthStep)
        ensures
            self.deep_view().authenticates(r, challenge is Some, now),
    {
        match &self.tokens {
            Some(tokens) => if !tokens.is_expired_at(now) && challenge.is_none() {
                AuthStep::Ready
            } else {
                AuthStep::Refresh(tokens.clone())
            },
            None => self.sign_in(),
        }
    }

    /// How a usable access token is got at this moment, after the given challenge.
    pub fn start_auth(&self, challenge: Option<&str>) -> (r: AuthStep)
        ensures
            exists|now: i64| #[trigger]
                clock_time(now) && self.deep_view().authenticates(r, challenge is Some, now),
    {
        let now = unix_now();
        self.start_auth_at(challenge, now)
    }

    /// How re-authentication starts for a server that reports missing credentials
    /// in its results instead of with a challenge.
    pub fn reauthenticate(&self) -> (r: AuthStep)
        ensures
            exists|now: i64| #[trigger]
                clock_time(now) && self.deep_view().authenticates(r, false, now),
    {
        self.start_auth(None)
    }

    fn sign_in(&self) -> (r: AuthStep)
        ensures
            self.deep_view().signs_in(r),
    {
        if self.interactive {
            AuthStep::CheckCooldown
        } else {
            AuthStep::Fail(McpError::SignInRequired { server: self.name.clone() })
        }
    }

    /// What follows a refresh: the new credentials are kept, or the user has to
    /// sign in.
    pub fn refresh_done(&mut self, refreshed: Option<McpOAuthTokens>) -> (r: AuthStep)
        ensures
            match refreshed.deep_view() {
                Some(tokens) => r is Ready && final(self).deep_view()
                    == old(self).deep_view().with_tokens(tokens),
                None => old(self).deep_view().signs_in(r) && *final(self) == *old(self),
            },
    {
        match refreshed {
            Some(tokens) => {
                self.tokens = Some(tokens);
                AuthStep::Ready
            },
            None => self.sign_in(),
        }
    }

    /// What follows the question whether a browser may be opened now.
    pub fn cooldown_checked(&self, allowed: bool) -> (r: AuthStep)
        ensures
            if allowed {
                r is Authorize
            } else {
                &&& r matches AuthStep::Fail(error)
                &&& error matches McpError::SignInCooldown { server }
                &&& server@ == self.deep_view().name
            },
    {
        if allowed {
            AuthStep::Authorize
        } else {
            AuthStep::Fail(McpError::SignInCooldown { server: self.name.clone() })
        }
    }

    /// Explicit sign-in, as a login command asks for it: a browser is opened
    /// whatever the credentials and the cooldown.
    pub fn login(&self) -> (r: AuthStep)
        ensures
            r is Authorize,
    {
        AuthStep::Authorize
    }

    /// Keeps the credentials of a completed sign-in.
    pub fn authorized(&mut self, tokens: McpOAuthTokens)
        ensures
            final(self).deep_view() == old(self).deep_view().with_tokens(tokens.deep_view()),
    {
        self.tokens = Some(tokens);
    }

    fn status_error(&self, status: u16, detail: &str) -> (r: McpError)
        ensures
            tells_status(r, self.deep_view().name, status, detail@),
    {
        McpError::HttpStatus { server: self.name.clone(), status, detail: quote_detail(detail) }
    }
}

/// Whether `error` tells that `server` answered with `status` and `detail`.
pub open spec fn tells_status(
    error: McpError,
    server: Seq<char>,
    status: u16,
    detail: Seq<char>,
) -> bool {
    &&& error matches McpError::HttpStatus { server: named, status: told, detail: quoted }
    &&& named@ == server
    &&& told == status
    &&& quoted@ == quoted_detail(detail)
}

/// Whether the text of an answer speaks of missing credentials, in any case.
pub open spec fn auth_error_text(text: Seq<char>) -> bool {
    let lower = lower_text(text);
    ||| contains_text(lower, "missing required authentication"@)
    ||| contains_text(lower, "expected oauth 2 access token"@)
    ||| contains_text(lower, "authentication credential"@)
    ||| contains_text(lower, "unregistered caller"@)
    ||| contains_text(lower, "without established identity"@)
}

/// Whether the text of an answer speaks of missing credentials.
pub fn is_auth_error_text(text: &str) -> (r: bool)
    ensures
        r == auth_error_text(text@),
{
    let chars = to_chars(text);
    let lower = lower_chars(chars.as_slice());
    has_text(lower.as_slice(), "missing required authentication") || has_text(
        lower.as_slice(),
        "expected oauth 2 access token",
    ) || has_text(lower.as_slice(), "authentication credential") || has_text(
        lower.as_slice(),
        "unregistered caller",
    ) || has_text(lower.as_slice(), "without established identity")
}

/// Whether a content type announces an event stream.
pub open spec fn event_stream(content_type: Option<Seq<char>>) -> bool {
    content_type is Some && begins_with(content_type->0, "text/event-stream"@)
}

fn is_event_stream(content_type: &Option<String>) -> (r: bool)
    ensures
        r == event_stream(content_type.deep_view()),
{
    match content_type {
        Some(value) => {
            let chars = to_chars(value.as_str());
            starts_with(chars.as_slice(), "text/event-stream")
        },
        None => false,
    }
}

/// What to do with an answer, once its head is known.
#[derive(Debug)]
pub enum HttpStep {
    /// Authenticate after this challenge, then send the request again.
    Authenticate { challenge: Option<String> },
    /// Read the body: it tells what is wrong.
    ReadError,
    /// Nothing more: no response is due.
    Done,
    /// Read the body as an event stream that carries the response.
    ReadEvents,
    /// Read the body as the response.
    ReadJson,
}

/// What to do with the body of an answer that tells of an error.
#[derive(Debug)]
pub enum ErrorStep {
    /// Authenticate without a challenge, then send the request again.
    Authenticate,
    /// Give up.
    Fail(McpError),
}

/// Whether the head of an answer alone asks for authentication, and there has been
/// none in this exchange.
pub open spec fn challenges(status: u16, retried: bool) -> bool {
    status == 401 && !retried
}

/// Whether the body of an answer asks for authentication, and there has been none
/// in this exchange.
pub open spec fn refuses_unauthenticated(status: u16, detail: Seq<char>, retried: bool) -> bool {
    status == 403 && !retried && auth_error_text(detail)
}

/// The course of one exchange: a message that is sent, and sent again after the
/// client has authenticated.
#[derive(Debug)]
pub struct HttpExchange {
    body: String,
    expect_response: bool,
    retried: bool,
}

impl HttpExchange {
    /// The message that is sent.
    pub closed spec fn message(self) -> Seq<char> {
        self.body@
    }

    /// Whether a response is due.
    pub closed spec fn expects_response(self) -> bool {
        self.expect_response
    }

    /// Whether the client has authenticated in this exchange.
    pub closed spec fn retried(self) -> bool {
        self.retried
    }

    /// Starts the exchange of the message `body`. No response is due to a
    /// notification.
    pub fn new(body: &str, expect_response: bool) -> (r: Self)
        ensures
            r.message() == body@,
            r.expects_response() == expect_response,
            !r.retried(),
    {
        HttpExchange { body: body.to_owned(), expect_response, retried: false }
    }

    /// The request that sends the message, the first time and again after the client
    /// has authenticated.
    pub fn request(&self, transport: &HttpTransport) -> (r: OutgoingRequest)
        ensures
            r.deep_view() == (Outgoing {
                url: transport.deep_view().url,
                headers: transport.deep_view().headers(),
                body: Some(self.message()),
            }),
    {
        transport.send(self.body.as_str())
    }

    /// What to do with an answer that has the given head. A successful answer may
    /// name a session, which `transport` remembers.
    pub fn answered(&mut self, transport: &mut HttpTransport, head: &ResponseHead) -> (r: HttpStep)
        ensures
            final(transport).deep_view() == (if success(head.status) {
                old(transport).deep_view().with_session(head.session_id.deep_view())
            } else {
                old(transport).deep_view()
            }),
            final(self).message() == old(self).message(),
            final(self).expects_response() == old(self).expects_response(),
            final(self).retried() == (old(self).retried() || r is Authenticate),
            match r {
                HttpStep::Authenticate { challenge } => challenges(
                    head.status,
                    old(self).retried(),
                ) && challenge.deep_view() == head.challenge.deep_view(),
                HttpStep::ReadError => !success(head.status) && !challenges(
                    head.status,
                    old(self).retried(),
                ),
                HttpStep::Done => success(head.status) && (!old(self).expects_response()
                    || head.status == 202),
                HttpStep::ReadEvents => success(head.status) && old(self).expects_response()
                    && head.status != 202 && event_stream(head.content_type.deep_view()),
                HttpStep::ReadJson => success(head.status) && old(self).expects_response()
                    && head.status != 202 && !event_stream(head.content_type.deep_view()),
            },
    {
        if head.status == 401 && !self.retried {
            self.retried = true;
            return HttpStep::Authenticate { challenge: copy_text(&head.challenge) };
        }
        if !is_success(head.status) {
            return HttpStep::ReadError;
        }
        transport.store_session(&head.session_id);
        if !self.expect_response || head.status == 202 {
            HttpStep::Done
        } else if is_event_stream(&head.content_type) {
            HttpStep::ReadEvents
        } else {
            HttpStep::ReadJson
        }
    }

    /// What to do with an answer that has the given body and tells of an error. A
    /// 403 that speaks of missing credentials is a challenge in disguise; any other
    /// is surfaced unchanged.
    pub fn error_read(&mut self, transport: &HttpTransport, status: u16, detail: &str) -> (r:
        ErrorStep)
        ensures
            final(self).message() == old(self).message(),
            final(self).expects_response() == old(self).expects_response(),
            final(self).retried() == (old(self).retried() || r is Authenticate),
            match r {
                ErrorStep::Authenticate => refuses_unauthenticated(
                    status,
                    detail@,
                    old(self).retried(),
                ),
                ErrorStep::Fail(error) => !refuses_unauthenticated(
                    status,
                    detail@,
                    old(self).retried(),
                ) && tells_status(error, transport.deep_view().name, status, detail@),
            },
    {
        if status == 403 && !self.retried {
            if is_auth_error_text(detail) {
                self.retried = true;
                return ErrorStep::Authenticate;
            }
        }
        ErrorStep::Fail(transport.status_error(status, detail))
    }
}

/// Whether an answer with the given status and body makes the client authenticate
/// and send its request again.
pub open spec fn sends_again(status: u16, detail: Seq<char>, retried: bool) -> bool {
    challenges(status, retried) || refuses_unauthenticated(status, detail, retried)
}

/// How many requests an exchange sends whose requests are answered, in order, with
/// the given statuses and bodies.
pub open spec fn requests_sent(answers: Seq<(u16, Seq<char>)>, retried: bool) -> nat
    decreases answers.len(),
{
    if answers.len() == 0 {
        0
    } else if sends_again(answers[0].0, answers[0].1, retried) {
        1 + requests_sent(answers.drop_first(), true)
    } else {
        1
    }
}

/// An exchange authenticates at most once, so it sends at most two requests,
/// whatever the server answers.
pub proof fn exchanges_authenticate_once(answers: Seq<(u16, Seq<char>)>)
    ensures
        forall|status: u16, detail: Seq<char>| !#[trigger] sends_again(status, detail, true),
        requests_sent(answers, false) <= 2,
{
    reveal_with_fuel(requests_sent, 3);
}

/// A 403 whose text does not speak of missing credentials never starts an
/// authentication.
pub proof fn genuine_refusals_are_surfaced(detail: Seq<char>, retried: bool)
    requires
        !auth_error_text(detail),
    ensures
        !sends_again(403, detail, retried),
{
}

/// A session that a server opened is named in every later request, until the
/// server names another.
pub proof fn sessions_are_carried(state: HttpState, id: Seq<char>)
    ensures
        state.with_session(Some(id)).headers()[2] == ("mcp-session-id"@, id),
        state.with_session(Some(id)).with_session(None) == state.with_session(Some(id)),
{
    let headers = state.with_session(Some(id)).headers();
    assert(headers[2] == ("mcp-session-id"@, id));
}

/// Credentials that have been obtained are sent with every later request, and a
/// request always says what it accepts.
pub proof fn tokens_are_carried(state: HttpState, tokens: Tokens)
    ensures
        state.with_tokens(tokens).headers().contains(
            ("authorization"@, "Bearer "@ + tokens.access_token),
        ),
        state.headers()[0] == ("content-type"@, "application/json"@),
        state.headers()[1] == ("accept"@, "application/json, text/event-stream"@),
{
    let headers = state.with_tokens(tokens).headers();
    let i: int = if state.session_id is Some {
        3
    } else {
        2
    };
    assert(headers[i] == ("authorization"@, "Bearer "@ + tokens.access_token));
    assert(state.headers()[0] == ("content-type"@, "application/json"@));
    assert(state.headers()[1] == ("accept"@, "application/json, text/event-stream"@));
}

/// Credentials that have just been obtained are used as they are, unless the
/// server challenges them.
pub proof fn obtained_tokens_are_in_force(
    state: HttpState,
    tokens: Tokens,
    step: AuthStep,
    now: i64,
)
    requires
        !expired(tokens.expires_at, now),
    ensures
        state.with_tokens(tokens).authenticates(step, false, now) ==> step is Ready,
{
}

/// The headers of a request, one by one: what it sends and accepts, the session where
/// there is one, the token where there is one, and behind these, in order, every
/// header that is configured, whatever the session and the token are.
pub proof fn requests_carry_every_header(state: HttpState)
    ensures
        ({
            let headers = state.headers();
            let extra = state.extra_headers.len() as int;
            let session = if state.session_id is Some {
                1int
            } else {
                0int
            };
            let token = if state.tokens is Some {
                1int
            } else {
                0int
            };
            &&& headers.len() == 2 + session + token + extra
            &&& headers.skip(headers.len() - extra) == state.extra_headers
            &&& headers[0] == ("content-type"@, "application/json"@)
            &&& headers[1] == ("accept"@, "application/json, text/event-stream"@)
            &&& state.session_id is Some ==> headers[2] == ("mcp-session-id"@, state.session_id->0)
            &&& state.tokens is Some ==> headers[2 + session] == (
                "authorization"@,
                "Bearer "@ + state.tokens->0.access_token,
            )
        }),
{
    let headers = state.headers();
    let extra = state.extra_headers.len() as int;
    assert(headers.skip(headers.len() - extra) =~= state.extra_headers);
}

/// Remembering a session or credentials changes nothing else.
pub proof fn answers_change_only_what_they_bring(
    state: HttpState,
    header: Option<Seq<char>>,
    tokens: Tokens,
)
    ensures
        header is Some ==> state.with_session(header).session_id == header,
        header is None ==> state.with_session(header) == state,
        state.with_session(header) == (HttpState {
            session_id: state.with_session(header).session_id,
            ..state
        }),
        state.with_tokens(tokens).tokens == Some(tokens),
        state.with_tokens(tokens) == (HttpState {
            tokens: state.with_tokens(tokens).tokens,
            ..state
        }),
{
}

/// How a usable token is got: one that is in force is used, one that is not is
/// refreshed, whether it has expired or is challenged, and without any the user signs
/// in, which needs a browser.
pub proof fn tokens_are_used_refreshed_or_signed_in_for(
    state: HttpState,
    step: AuthStep,
    challenged: bool,
    now: i64,
)
    requires
        state.authenticates(step, challenged, now),
    ensures
        state.tokens is Some && !challenged && (state.tokens->0.expires_at <= 0
            || state.tokens->0.expires_at - now > 60) ==> step is Ready,
        state.tokens is Some && (challenged || (state.tokens->0.expires_at > 0
            && state.tokens->0.expires_at - now <= 60)) ==> (step matches AuthStep::Refresh(old)
            && old.deep_view() == state.tokens->0),
        state.tokens is None && state.interactive ==> step is CheckCooldown,
        state.tokens is None && !state.interactive ==> (step matches AuthStep::Fail(error)
            && error matches McpError::SignInRequired { server } && server@ == state.name),
{
}

/// A sign-in asks for the cooldown where a browser may be opened, and fails with the
/// name of the server where it may not.
pub proof fn sign_in_follows_the_setting(state: HttpState, step: AuthStep)
    requires
        state.signs_in(step),
    ensures
        state.interactive ==> step is CheckCooldown,
        !state.interactive ==> (step matches AuthStep::Fail(error)
            && error matches McpError::SignInRequired { server } && server@ == state.name),
{
}

/// A text speaks of missing credentials exactly where one of five phrases stands in it,
/// once its capitals are made small, wherever it stands.
pub proof fn phrases_tell_of_missing_credentials(
    before: Seq<char>,
    phrase: Seq<char>,
    after: Seq<char>,
    text: Seq<char>,
)
    requires
        phrase == "missing required authentication"@ || phrase == "expected oauth 2 access token"@
            || phrase == "authentication credential"@ || phrase == "unregistered caller"@ || phrase
            == "without established identity"@,
    ensures
        lower_text(text) == before + phrase + after ==> auth_error_text(text),
        auth_error_text(text) ==> contains_text(
            lower_text(text),
            "missing required authentication"@,
        ) || contains_text(lower_text(text), "expected oauth 2 access token"@) || contains_text(
            lower_text(text),
            "authentication credential"@,
        ) || contains_text(lower_text(text), "unregistered caller"@) || contains_text(
            lower_text(text),
            "without established identity"@,
        ),
{
    parts_are_contained(before, phrase, after, Seq::empty());
}

/// Whether an answer asks for authentication is told by its status, and for a 403 by
/// its text, and only before the client has authenticated.
pub proof fn answers_ask_for_authentication(status: u16, detail: Seq<char>, retried: bool)
    ensures
        challenges(status, retried) <==> status == 401 && !retried,
        refuses_unauthenticated(status, detail, retried) ==> status == 403 && !retried,
        status == 403 && !retried && auth_error_text(detail) ==> refuses_unauthenticated(
            status,
            detail,
            retried,
        ),
        refuses_unauthenticated(status, detail, retried) ==> auth_error_text(detail),
{
}

/// A body is an event stream exactly where its content type begins with the name of
/// one, whatever follows it.
pub proof fn content_types_begin_with_their_name(parameters: Seq<char>, value: Seq<char>)
    ensures
        event_stream(Some("text/event-stream"@ + parameters)),
        event_stream(Some(value)) ==> value.len() >= "text/event-stream"@.len() && value.take(
            "text/event-stream"@.len() as int,
        ) == "text/event-stream"@,
        !event_stream(None),
{
    beginnings_are_prefixes("text/event-stream"@, parameters, value);
    if event_stream(Some(value)) {
        let n = "text/event-stream"@.len() as int;
        assert(value.take(n) =~= "text/event-stream"@);
    }
}

/// An error that tells a status names the server, the status and the start of the
/// answer.
pub proof fn status_errors_are_told(
    error: McpError,
    server: Seq<char>,
    status: u16,
    detail: Seq<char>,
)
    requires
        tells_status(error, server, status, detail),
    ensures
        error matches McpError::HttpStatus { server: named, status: told, detail: quoted }
            && named@ == server && told == status && (detail.len() <= 200 ==> quoted@ == detail)
            && (detail.len() > 200 ==> quoted@ == detail.take(200)),
{
}

} // verus!
