//! The state of an SSE connection, how its stream is opened, and the course of
//! one exchange.

use crate::clock::{clock_time, unix_now};
use crate::decimal::{numeral, write_decimal};
use crate::error::{quote_detail, quoted_detail, McpError};
use crate::oauth::tokens::{McpOAuthTokens, Tokens};
use crate::protocol::{
    append_copies, append_pair, copy_oauth_config, copy_pairs, JsonRpcResponse, McpOAuthConfig,
    McpServerConfig, OAuthConfig,
};
use crate::sse::decoder::{all_frames, announced, first_endpoint, Event, SseDecoder, SseEvent};
use crate::text::{
    begins_with, copy_text, lower_chars, lower_text, starts_with, to_chars, utf8_lossy,
};
use crate::transport::{
    authorization_value, bearer_value, in_force, is_success, sign_in_required, success, AuthStep,
    Outgoing, OutgoingRequest, ResponseHead,
};
use crate::web_url::{join_url, url_joined};
use std::collections::HashMap;
use vstd::prelude::*;
use vstd::utf8::encode_utf8;

verus! {

/// How many seconds a response is waited for.
pub const REQUEST_TIMEOUT: u64 = 30;

/// A connection as a mathematical value. `pending` holds, by the id of its
/// request, whoever waits for a response.
#[verifier::ext_equal]
pub struct SseState<W> {
    pub name: Seq<char>,
    pub url: Seq<char>,
    pub extra_headers: Seq<(Seq<char>, Seq<char>)>,
    pub oauth: Option<OAuthConfig>,
    pub tokens: Option<Tokens>,
    pub post_url: Option<Seq<char>>,
    pub pending: Map<u64, W>,
    pub generation: u64,
}

impl<W> SseState<W> {
    /// The state without an endpoint.
    pub open spec fn disconnected(self) -> SseState<W> {
        SseState { post_url: None, ..self }
    }

    /// The state after a new stream has announced the endpoint `url`.
    pub open spec fn connected(self, url: Seq<char>) -> SseState<W> {
        SseState { post_url: Some(url), generation: (self.generation + 1) as u64, ..self }
    }

    /// The state after the stream of the given generation has ended: a newer stream
    /// keeps its endpoint.
    pub open spec fn stream_ended(self, generation: u64) -> SseState<W> {
        if self.generation == generation {
            self.disconnected()
        } else {
            self
        }
    }

    /// The state with other credentials.
    pub open spec fn with_tokens(self, tokens: Tokens) -> SseState<W> {
        SseState { tokens: Some(tokens), ..self }
    }

    /// The state in which `waiter` waits for the response to request `id`.
    pub open spec fn waiting(self, id: u64, waiter: W) -> SseState<W> {
        SseState { pending: self.pending.insert(id, waiter), ..self }
    }

    /// The state in which nobody waits for the response to request `id`.
    pub open spec fn without(self, id: u64) -> SseState<W> {
        SseState { pending: self.pending.remove(id), ..self }
    }

    /// Who waits for the response to request `id`.
    pub open spec fn waiter(self, id: u64) -> Option<W> {
        if self.pending.contains_key(id) {
            Some(self.pending[id])
        } else {
            None
        }
    }

    /// The headers that every request ends with, in order.
    pub open spec fn own_headers(self) -> Seq<(Seq<char>, Seq<char>)> {
        match bearer_value(self.tokens) {
            Some(value) => self.extra_headers.push(("authorization"@, value)),
            None => self.extra_headers,
        }
    }

    /// The headers of the request that opens the stream, in order.
    pub open spec fn stream_headers(self) -> Seq<(Seq<char>, Seq<char>)> {
        seq![("accept"@, "text/event-stream"@), ("cache-control"@, "no-cache"@)]
            + self.own_headers()
    }

    /// The headers of a request that posts a message of the given length in bytes,
    /// in order.
    pub open spec fn post_headers(self, bytes: usize) -> Seq<(Seq<char>, Seq<char>)> {
        seq![
            ("content-type"@, "application/json"@),
            ("content-length"@, numeral(bytes as nat)),
            ("accept"@, "application/json, text/event-stream"@),
        ] + self.own_headers()
    }

    /// Whether `step` is how a sign-in starts: only where a browser may be opened
    /// at all.
    pub open spec fn signs_in(self, step: AuthStep, interactive: bool) -> bool {
        if interactive {
            step is Authorize
        } else {
            sign_in_required(step, self.name)
        }
    }

    /// Whether `step` is how a usable access token is got at `now`.
    pub open spec fn authenticates(
        self,
        step: AuthStep,
        challenged: bool,
        interactive: bool,
        now: i64,
    ) -> bool {
        match self.tokens {
            Some(tokens) => if in_force(tokens, challenged, now) {
                step is Ready
            } else {
                step matches AuthStep::Refresh(old) && old.deep_view() == tokens
            },
            None => self.signs_in(step, interactive),
        }
    }
}

/// A connection to an SSE server. `W` is the caller's type for whoever waits for a
/// response.
pub struct SseTransport<W> {
    name: String,
    url: String,
    extra_headers: Vec<(String, String)>,
    oauth_config: Option<McpOAuthConfig>,
    tokens: Option<McpOAuthTokens>,
    post_url: Option<String>,
    pending: HashMap<u64, W>,
    generation: u64,
}

impl<W> DeepView for SseTransport<W> {
    type V = SseState<W>;

    closed spec fn deep_view(&self) -> SseState<W> {
        SseState {
            name: self.name@,
            url: self.url@,
            extra_headers: self.extra_headers.deep_view(),
            oauth: self.oauth_config.deep_view(),
            tokens: self.tokens.deep_view(),
            post_url: self.post_url.deep_view(),
            pending: self.pending@,
            generation: self.generation,
        }
    }
}

impl<W> SseTransport<W> {
    /// A connection to the configured server, with the credentials that were saved
    /// for it. Its stream is not open yet.
    pub fn new(name: String, config: &McpServerConfig, tokens: Option<McpOAuthTokens>) -> (r:
        Result<Self, McpError>)
        ensures
            match config.url {
                Some(url) => {
                    &&& r matches Ok(transport)
                    &&& transport.deep_view() == (SseState {
                        name: name@,
                        url: url@,
                        extra_headers: config.headers.deep_view(),
                        oauth: config.oauth.deep_view(),
                        tokens: tokens.deep_view(),
                        post_url: None,
                        pending: Map::<u64, W>::empty(),
                        generation: 0,
                    })
                },
                None => r matches Err(error) && error is SseWithoutUrl,
            },
    {
        let url = match copy_text(&config.url) {
            Some(url) => url,
            None => {
                return Err(McpError::SseWithoutUrl);
            },
        };
        let pending: HashMap<u64, W> = HashMap::new();
        Ok(
            SseTransport {
                name,
                url,
                extra_headers: copy_pairs(config.headers.as_slice()),
                oauth_config: copy_oauth_config(&config.oauth),
                tokens,
                post_url: None,
                pending,
                generation: 0,
            },
        )
    }

    /// The name of the server.
    pub fn name(&self) -> (r: &str)
        ensures
            r@ == self.deep_view().name,
    {
        self.name.as_str()
    }

    /// The URL of the server.
    pub fn url(&self) -> (r: &str)
        ensures
            r@ == self.deep_view().url,
    {
        self.url.as_str()
    }

    /// What the configuration says about the OAuth provider.
    pub fn oauth_config(&self) -> (r: Option<McpOAuthConfig>)
        ensures
            r.deep_view() == self.deep_view().oauth,
    {
        copy_oauth_config(&self.oauth_config)
    }

    /// How many streams have announced an endpoint.
    pub fn generation(&self) -> (r: u64)
        ensures
            r == self.deep_view().generation,
    {
        self.generation
    }

    /// The request that opens the stream; `None` where it is open already.
    pub fn connect(&self) -> (r: Option<OutgoingRequest>)
        ensures
            match self.deep_view().post_url {
                Some(_) => r is None,
                None => r.deep_view() == Some(
                    Outgoing {
                        url: self.deep_view().url,
                        headers: self.deep_view().stream_headers(),
                        body: None,
                    },
                ),
            },
    {
        if self.post_url.is_some() {
            return None;
        }
        let mut headers: Vec<(String, String)> = Vec::new();
        append_pair(&mut headers, "accept", "text/event-stream");
        append_pair(&mut headers, "cache-control", "no-cache");
        assert(headers.deep_view() =~= seq![
            ("accept"@, "text/event-stream"@),
            ("cache-control"@, "no-cache"@),
        ]);
        self.apply_headers(&mut headers);
        Some(OutgoingRequest { url: self.url.clone(), headers, body: None })
    }

    /// Adds the headers that every request ends with.
    fn apply_headers(&self, headers: &mut Vec<(String, String)>)
        ensures
            final(headers).deep_view() == old(headers).deep_view()
                + self.deep_view().own_headers(),
    {
        append_copies(headers, self.extra_headers.as_slice());
        if let Some(value) = authorization_value(&self.tokens) {
            append_pair(headers, "authorization", value.as_str());
        }
        assert(headers.deep_view() =~= old(headers).deep_view() + self.deep_view().own_headers());
    }

    /// Starts to use the stream that announced `endpoint`, which is relative to the
    /// URL of the server; returns the generation of the stream.
    pub fn endpoint_announced(&mut self, endpoint: &str) -> (r: Result<u64, McpError>)
        requires
            old(self).deep_view().generation < u64::MAX,
        ensures
            match url_joined(old(self).deep_view().url, endpoint@) {
                Some(url) => {
                    &&& r matches Ok(generation)
                    &&& final(self).deep_view() == old(self).deep_view().connected(url)
                    &&& generation == final(self).deep_view().generation
                },
                None => {
                    &&& r matches Err(error)
                    &&& error is InvalidEndpoint
                    &&& *final(self) == *old(self)
                },
            },
    {
        match join_url(self.url.as_str(), endpoint) {
            Ok(url) => Ok(self.stream_opened(url)),
            Err(cause) => Err(McpError::InvalidEndpoint { cause }),
        }
    }

    /// Starts to use a stream whose messages are posted to `url`; returns the
    /// generation of the stream.
    pub fn stream_opened(&mut self, url: String) -> (r: u64)
        requires
            old(self).deep_view().generation < u64::MAX,
        ensures
            final(self).deep_view() == old(self).deep_view().connected(url@),
            r == final(self).deep_view().generation,
    {
        self.generation = self.generation + 1;
        self.post_url = Some(url);
        self.generation
    }

    /// What to do with the next chunk of a stream that has not announced its
    /// endpoint yet, `None` where the stream has ended. Messages before the
    /// announcement, and in the same chunk after it, are dropped.
    pub fn opening_chunk(&self, decoder: &mut SseDecoder, chunk: Option<&[u8]>) -> (r: OpeningStep)
        ensures
            match chunk {
                Some(bytes) => {
                    let (left, frames) = all_frames(
                        old(decoder)@.then_chunk(utf8_lossy(bytes@)),
                    );
                    &&& final(decoder)@ == left
                    &&& match announced(frames) {
                        Some(url) => r matches OpeningStep::Announced(endpoint) && endpoint@ == url,
                        None => r is ReadOn,
                    }
                },
                None => {
                    &&& *final(decoder) == *old(decoder)
                    &&& r matches OpeningStep::Fail(error)
                    &&& error matches McpError::NoEndpointAnnounced { server }
                    &&& server@ == self.deep_view().name
                },
            },
    {
        match chunk {
            Some(bytes) => {
                let frames = decoder.push_frame_bytes(bytes);
                match first_endpoint(&frames) {
                    Some(endpoint) => OpeningStep::Announced(endpoint),
                    None => OpeningStep::ReadOn,
                }
            },
            None => OpeningStep::Fail(
                McpError::NoEndpointAnnounced { server: self.name.clone() },
            ),
        }
    }

    /// Forgets the endpoint of a stream that has ended. A newer stream, established
    /// after that one, keeps its endpoint.
    pub fn stream_ended(&mut self, generation: u64)
        ensures
            final(self).deep_view() == old(self).deep_view().stream_ended(generation),
    {
        if self.generation == generation {
            self.post_url = None;
        }
    }

    /// Forgets the endpoint, so that the next message opens a new stream.
    pub fn clear_stream(&mut self)
        ensures
            final(self).deep_view() == old(self).deep_view().disconnected(),
    {
        self.post_url = None;
    }

    /// How a usable access token is got at `now`, after the given challenge.
    pub fn start_auth_at(&self, challenge: Option<&str>, interactive: bool, now: i64) -> (r:
        AuthStep)
        ensures
            self.deep_view().authenticates(r, challenge is Some, interactive, now),
    {
        match &self.tokens {
            Some(tokens) => if !tokens.is_expired_at(now) && challenge.is_none() {
                AuthStep::Ready
            } else {
                AuthStep::Refresh(tokens.clone())
            },
            None => self.sign_in(interactive),
        }
    }

    /// How a usable access token is got at this moment, after the given challenge.
    pub fn start_auth(&self, challenge: Option<&str>, interactive: bool) -> (r: AuthStep)
        ensures
            exists|now: i64| #[trigger]
                clock_time(now) && self.deep_view().authenticates(
                    r,
                    challenge is Some,
                    interactive,
                    now,
                ),
    {
        let now = unix_now();
        self.start_auth_at(challenge, interactive, now)
    }

    /// How re-authentication starts for a server that reports missing credentials
    /// in its results: the stream is given up too.
    pub fn reauthenticate(&mut self, interactive: bool) -> (r: AuthStep)
        ensures
            final(self).deep_view() == old(self).deep_view().disconnected(),
            exists|now: i64| #[trigger]
                clock_time(now) && old(self).deep_view().authenticates(
                    r,
                    false,
                    interactive,
                    now,
                ),
    {
        self.clear_stream();
        self.start_auth(None, interactive)
    }

    fn sign_in(&self, interactive: bool) -> (r: AuthStep)
        ensures
            self.deep_view().signs_in(r, interactive),
    {
        if interactive {
            AuthStep::Authorize
        } else {
            AuthStep::Fail(McpError::SignInRequired { server: self.name.clone() })
        }
    }

    /// What follows a refresh: the new credentials are kept, or the user has to
    /// sign in.
    pub fn refresh_done(&mut self, refreshed: Option<McpOAuthTokens>, interactive: bool) -> (r:
        AuthStep)
        ensures
            match refreshed.deep_view() {
                Some(tokens) => r is Ready && final(self).deep_view()
                    == old(self).deep_view().with_tokens(tokens),
                None => old(self).deep_view().signs_in(r, interactive) && *final(self)
                    == *old(self),
            },
    {
        match refreshed {
            Some(tokens) => {
                self.tokens = Some(tokens);
                AuthStep::Ready
            },
            None => self.sign_in(interactive),
        }
    }

    /// Keeps the credentials of a completed sign-in.
    pub fn authorized(&mut self, tokens: McpOAuthTokens)
        ensures
            final(self).deep_view() == old(self).deep_view().with_tokens(tokens.deep_view()),
    {
        self.tokens = Some(tokens);
    }

    /// The request that posts a message to the endpoint of the stream.
    pub fn send(&self, body: &str) -> (r: Result<OutgoingRequest, McpError>)
        ensures
            match self.deep_view().post_url {
                Some(url) => {
                    &&& r matches Ok(request)
                    &&& request.deep_view() == (Outgoing {
                        url,
                        headers: self.deep_view().post_headers(body.len()),
                        body: Some(body@),
                    })
                },
                None => r matches Err(error) && error is NoMessageEndpoint,
            },
    {
        let url = match copy_text(&self.post_url) {
            Some(url) => url,
            None => {
                return Err(McpError::NoMessageEndpoint);
            },
        };
        let bytes: usize = body.len();
        let mut headers: Vec<(String, String)> = Vec::new();
        append_pair(&mut headers, "content-type", "application/json");
        append_pair(&mut headers, "content-length", write_decimal(bytes as u64).as_str());
        append_pair(&mut headers, "accept", "application/json, text/event-stream");
        assert(headers.deep_view() =~= seq![
            ("content-type"@, "application/json"@),
            ("content-length"@, numeral(bytes as nat)),
            ("accept"@, "application/json, text/event-stream"@),
        ]);
        self.apply_headers(&mut headers);
        Ok(OutgoingRequest { url, headers, body: Some(body.to_owned()) })
    }

    /// Lets `waiter` wait for the response to request `id`, in place of whoever
    /// waited for it before.
    pub fn wait_for(&mut self, id: u64, waiter: W)
        ensures
            final(self).deep_view() == old(self).deep_view().waiting(id, waiter),
    {
        broadcast use vstd::std_specs::hash::group_hash_axioms;

        let _ = self.pending.insert(id, waiter);
    }

    /// Nobody waits for the response to request `id` any longer; returns who did.
    pub fn cancel(&mut self, id: u64) -> (r: Option<W>)
        ensures
            final(self).deep_view() == old(self).deep_view().without(id),
            r == old(self).deep_view().waiter(id),
    {
        broadcast use vstd::std_specs::hash::group_hash_axioms;

        let waiter = self.pending.remove(&id);
        assert(self.deep_view().pending =~= old(self).deep_view().pending.remove(id));
        waiter
    }

    /// Who gets a message from the server: whoever waits for the response with its
    /// id, and waits no longer after that.
    pub fn deliver<V>(&mut self, message: &JsonRpcResponse<V>) -> (r: Option<W>)
        ensures
            match message.id {
                Some(id) => {
                    &&& final(self).deep_view() == old(self).deep_view().without(id)
                    &&& r == old(self).deep_view().waiter(id)
                },
                None => r is None && *final(self) == *old(self),
            },
    {
        match message.id {
            Some(id) => self.cancel(id),
            None => None,
        }
    }

    /// Hands the messages among `events` out, in order: each to whoever waits for
    /// the response with its id. A message that nobody waits for is dropped.
    pub fn dispatch<V>(&mut self, events: Vec<SseEvent<V>>) -> (r: Vec<(W, JsonRpcResponse<V>)>)
        ensures
            (final(self).deep_view(), r@) == dispatched(old(self).deep_view(), events.deep_view()),
    {
        let mut handed: Vec<(W, JsonRpcResponse<V>)> = Vec::new();
        let ghost all = events.deep_view();
        assert(all.take(0) =~= Seq::<Event<V>>::empty());
        for event in it: events
            invariant
                it.seq() == events@,
                all == events.deep_view(),
                (self.deep_view(), handed@) == dispatched(
                    old(self).deep_view(),
                    all.take(it.index() as int),
                ),
        {
            let ghost i = it.index() as int;
            proof {
                assert(all.take(i + 1).drop_last() =~= all.take(i));
                assert(all.take(i + 1).last() == event.deep_view());
            }
            if let SseEvent::Message(message) = event {
                if let Some(waiter) = self.deliver(&message) {
                    handed.push((waiter, message));
                }
            }
        }
        assert(all.take(all.len() as int) =~= all);
        handed
    }

    /// Starts the exchange of the message `body`. `id` is that of the request, and
    /// no response is due to a notification.
    pub fn exchange(&self, body: &str, id: u64, expect_response: bool) -> (r: PostExchange)
        ensures
            r.message() == body@,
            r.id() == id,
            r.expects_response() == expect_response,
            !r.retried(),
    {
        PostExchange { body: body.to_owned(), id, expect_response, retried: false }
    }

    /// Starts the exchange of the notification `body`.
    pub fn notify(&self, body: &str) -> (r: PostExchange)
        ensures
            r.message() == body@,
            r.id() == 0,
            !r.expects_response(),
            !r.retried(),
    {
        self.exchange(body, 0, false)
    }

    /// The error for a server that answered with `status` and `detail`.
    pub fn status_error(&self, status: u16, detail: &str) -> (r: McpError)
        ensures
            tells_status(r, self.deep_view().name, status, detail@),
    {
        McpError::SseStatus { server: self.name.clone(), status, detail: quote_detail(detail) }
    }
}

/// The state after `events` have been handed out, and what was handed to whom.
pub open spec fn dispatched<W, V>(state: SseState<W>, events: Seq<Event<V>>) -> (
    SseState<W>,
    Seq<(W, JsonRpcResponse<V>)>,
)
    decreases events.len(),
{
    if events.len() == 0 {
        (state, Seq::empty())
    } else {
        let (before, handed) = dispatched(state, events.drop_last());
        match events.last() {
            Event::Message(message) => match message.id {
                Some(id) => (
                    before.without(id),
                    match before.waiter(id) {
                        Some(waiter) => handed.push((waiter, message)),
                        None => handed,
                    },
                ),
                None => (before, handed),
            },
            Event::Endpoint(_) => (before, handed),
        }
    }
}

/// Whether `error` tells that `server` answered with `status` and `detail`.
pub open spec fn tells_status(
    error: McpError,
    server: Seq<char>,
    status: u16,
    detail: Seq<char>,
) -> bool {
    &&& error matches McpError::SseStatus { server: named, status: told, detail: quoted }
    &&& named@ == server
    &&& told == status
    &&& quoted@ == quoted_detail(detail)
}

/// Whether an answer asks for authentication, and there has been none yet.
pub open spec fn challenges(status: u16, retried: bool) -> bool {
    status == 401 && !retried
}

/// What to do with the answer to the request that opens the stream.
#[derive(Debug)]
pub enum StreamStep {
    /// Authenticate after this challenge, then send the request again.
    Authenticate { challenge: Option<String> },
    /// Read the body: it tells what is wrong.
    ReadError,
    /// Read events until one announces the endpoint.
    ReadEvents,
}

/// What to do with a chunk of a stream that has not announced its endpoint yet.
#[derive(Debug)]
pub enum OpeningStep {
    /// Read the next chunk.
    ReadOn,
    /// Use this endpoint.
    Announced(String),
    /// Give up.
    Fail(McpError),
}

/// The opening of a stream.
#[derive(Debug)]
pub struct StreamExchange {
    retried: bool,
}

impl StreamExchange {
    /// Whether the client has authenticated while opening the stream.
    pub closed spec fn retried(self) -> bool {
        self.retried
    }

    /// Starts to open a stream.
    pub fn new() -> (r: Self)
        ensures
            !r.retried(),
    {
        StreamExchange { retried: false }
    }

    /// What to do with an answer that has the given head.
    pub fn answered(&mut self, head: &ResponseHead) -> (r: StreamStep)
        ensures
            final(self).retried() == (old(self).retried() || r is Authenticate),
            match r {
                StreamStep::Authenticate { challenge } => challenges(
                    head.status,
                    old(self).retried(),
                ) && challenge.deep_view() == head.challenge.deep_view(),
                StreamStep::ReadError => !success(head.status) && !challenges(
                    head.status,
                    old(self).retried(),
                ),
                StreamStep::ReadEvents => success(head.status),
            },
    {
        if head.status == 401 && !self.retried {
            self.retried = true;
            StreamStep::Authenticate { challenge: copy_text(&head.challenge) }
        } else if !is_success(head.status) {
            StreamStep::ReadError
        } else {
            StreamStep::ReadEvents
        }
    }
}

/// Whether a content type, in any case, announces a JSON body.
pub open spec fn json_body(content_type: Option<Seq<char>>) -> bool {
    content_type is Some && begins_with(lower_text(content_type->0), "application/json"@)
}

fn is_json_body(content_type: &Option<String>) -> (r: bool)
    ensures
        r == json_body(content_type.deep_view()),
{
    match content_type {
        Some(value) => {
            let chars = to_chars(value.as_str());
            let lower = lower_chars(chars.as_slice());
            starts_with(lower.as_slice(), "application/json")
        },
        None => false,
    }
}

/// What to do with the answer to a posted message.
#[derive(Debug)]
pub enum PostStep {
    /// Authenticate after this challenge, then start again with a new stream.
    Authenticate { challenge: Option<String> },
    /// Read the body: it tells what is wrong.
    ReadError,
    /// Nothing more: no response is due.
    Done,
    /// Read the body: it may be the response.
    ReadJson,
    /// Wait for the response to arrive on the stream.
    Wait,
}

/// What came of waiting for a response.
#[derive(Debug)]
pub enum Waited<V> {
    /// It arrived.
    Arrived(JsonRpcResponse<V>),
    /// It did not arrive in time.
    TimedOut,
    /// The stream ended.
    Closed,
}

/// The course of one exchange: a message that is posted, and posted again after the
/// client has authenticated.
#[derive(Debug)]
pub struct PostExchange {
    body: String,
    id: u64,
    expect_response: bool,
    retried: bool,
}

impl PostExchange {
    /// The message that is posted.
    pub closed spec fn message(self) -> Seq<char> {
        self.body@
    }

    /// The id of the request.
    pub closed spec fn id(self) -> u64 {
        self.id
    }

    /// Whether a response is due.
    pub closed spec fn expects_response(self) -> bool {
        self.expect_response
    }

    /// Whether the client has authenticated in this exchange.
    pub closed spec fn retried(self) -> bool {
        self.retried
    }

    /// The request that posts the message, the first time and again after the client
    /// has authenticated.
    pub fn request<W>(&self, transport: &SseTransport<W>) -> (r: Result<OutgoingRequest, McpError>)
        ensures
            match transport.deep_view().post_url {
                Some(url) => {
                    &&& r matches Ok(request)
                    &&& request.deep_view() == (Outgoing {
                        url,
                        headers: transport.deep_view().post_headers(
                            encode_utf8(self.message()).len() as usize,
                        ),
                        body: Some(self.message()),
                    })
                },
                None => r matches Err(error) && error is NoMessageEndpoint,
            },
    {
        transport.send(self.body.as_str())
    }

    /// Whether somebody has to wait for the response before the message is posted.
    pub fn needs_waiter(&self) -> (r: bool)
        ensures
            r == self.expects_response(),
    {
        self.expect_response
    }

    /// What to do with an answer that has the given head. Where the message has not
    /// been accepted nobody waits for its response any longer, and a challenge
    /// gives up the stream too.
    pub fn answered<W>(&mut self, transport: &mut SseTransport<W>, head: &ResponseHead) -> (r:
        PostStep)
        ensures
            final(transport).deep_view() == (match r {
                PostStep::Authenticate { challenge } => old(transport).deep_view().without(
                    old(self).id(),
                ).disconnected(),
                PostStep::ReadError => old(transport).deep_view().without(old(self).id()),
                _ => old(transport).deep_view(),
            }),
            final(self).message() == old(self).message(),
            final(self).id() == old(self).id(),
            final(self).expects_response() == old(self).expects_response(),
            final(self).retried() == (old(self).retried() || r is Authenticate),
            match r {
                PostStep::Authenticate { challenge } => challenges(
                    head.status,
                    old(self).retried(),
                ) && challenge.deep_view() == head.challenge.deep_view(),
                PostStep::ReadError => !success(head.status) && !challenges(
                    head.status,
                    old(self).retried(),
                ),
                PostStep::Done => success(head.status) && !old(self).expects_response(),
                PostStep::ReadJson => success(head.status) && old(self).expects_response()
                    && head.status != 202 && json_body(head.content_type.deep_view()),
                PostStep::Wait => success(head.status) && old(self).expects_response() && (
                head.status == 202 || !json_body(head.content_type.deep_view())),
            },
    {
        if head.status == 401 && !self.retried {
            let _ = transport.cancel(self.id);
            transport.clear_stream();
            self.retried = true;
            return PostStep::Authenticate { challenge: copy_text(&head.challenge) };
        }
        if !is_success(head.status) {
            let _ = transport.cancel(self.id);
            return PostStep::ReadError;
        }
        if !self.expect_response {
            PostStep::Done
        } else if head.status != 202 && is_json_body(&head.content_type) {
            PostStep::ReadJson
        } else {
            PostStep::Wait
        }
    }

    /// What a JSON body comes to, as far as it could be read: the response, for
    /// which nobody waits any longer then, or nothing, and the response is still to
    /// be waited for.
    pub fn json_read<W, V>(
        &self,
        transport: &mut SseTransport<W>,
        parsed: Option<JsonRpcResponse<V>>,
    ) -> (r: Option<JsonRpcResponse<V>>)
        ensures
            r == parsed,
            final(transport).deep_view() == (if parsed is Some {
                old(transport).deep_view().without(self.id())
            } else {
                old(transport).deep_view()
            }),
    {
        if parsed.is_some() {
            let _ = transport.cancel(self.id);
        }
        parsed
    }
}

/// What an exchange ends with after waiting for the response.
pub fn waited<V>(outcome: Waited<V>) -> (r: Result<JsonRpcResponse<V>, McpError>)
    ensures
        match outcome {
            Waited::Arrived(response) => r == Ok::<JsonRpcResponse<V>, McpError>(response),
            Waited::TimedOut => r matches Err(error) && error is ResponseTimeout,
            Waited::Closed => r matches Err(error) && error is EventStreamClosed,
        },
{
    match outcome {
        Waited::Arrived(response) => Ok(response),
        Waited::TimedOut => Err(McpError::ResponseTimeout),
        Waited::Closed => Err(McpError::EventStreamClosed),
    }
}

/// The end of a stream never takes the endpoint from a stream that was established
/// after it, and takes it from the newest.
pub proof fn newer_streams_keep_their_endpoint<W>(state: SseState<W>, ended: u64, newer: Seq<char>)
    requires
        ended <= state.generation < u64::MAX,
    ensures
        ({
            let later = state.connected(newer);
            &&& later.stream_ended(ended) == later
            &&& later.post_url == Some(newer)
            &&& later.stream_ended(later.generation).post_url is None
        }),
{
}

/// A response reaches whoever waits for it exactly once, and nobody else.
pub proof fn responses_are_delivered_once<W>(state: SseState<W>, id: u64, waiter: W, other: u64)
    ensures
        state.waiting(id, waiter).waiter(id) == Some(waiter),
        state.waiting(id, waiter).without(id).waiter(id) is None,
        other != id ==> state.waiting(id, waiter).waiter(other) == state.waiter(other),
        other != id ==> state.without(id).waiter(other) == state.waiter(other),
{
}

/// Handing messages out changes nothing but who still waits.
pub proof fn dispatch_only_ends_waits<W, V>(state: SseState<W>, events: Seq<Event<V>>)
    ensures
        dispatched(state, events).0 == (SseState {
            pending: dispatched(state, events).0.pending,
            ..state
        }),
        dispatched(state, events).0.pending.submap_of(state.pending),
        dispatched(state, events).1.len() <= events.len(),
    decreases events.len(),
{
    if events.len() > 0 {
        dispatch_only_ends_waits(state, events.drop_last());
    }
}

/// A message that answers a request is handed to whoever waits for it, even among
/// others that answer other requests.
pub proof fn awaited_messages_arrive<W, V>(
    state: SseState<W>,
    events: Seq<Event<V>>,
    i: int,
    id: u64,
)
    requires
        0 <= i < events.len(),
        answers(events[i], id),
        forall|j: int| 0 <= j < i ==> !answers(#[trigger] events[j], id),
        state.waiter(id) is Some,
    ensures
        exists|k: int|
            0 <= k < dispatched(state, events).1.len() && (#[trigger] dispatched(
                state,
                events,
            ).1[k]).0 == state.waiter(id)->0 && Event::Message(dispatched(state, events).1[k].1)
                == events[i],
        dispatched(state, events).0.waiter(id) is None,
    decreases events.len(),
{
    let before = events.drop_last();
    let handed = dispatched(state, events).1;
    if i < events.len() - 1 {
        assert(answers(before[i], id));
        assert forall|j: int| 0 <= j < i implies !answers(#[trigger] before[j], id) by {
            assert(before[j] == events[j]);
        }
        awaited_messages_arrive(state, before, i, id);
        let earlier = dispatched(state, before).1;
        let k = choose|k: int|
            0 <= k < earlier.len() && (#[trigger] earlier[k]).0 == state.waiter(id)->0
                && Event::Message(earlier[k].1) == events[i];
        assert(handed[k] == earlier[k]);
    } else {
        assert forall|j: int| 0 <= j < before.len() implies !answers(#[trigger] before[j], id) by {
            assert(before[j] == events[j]);
        }
        lemma_waits_on(state, before, id);
        assert(handed[handed.len() - 1].0 == state.waiter(id)->0);
    }
}

/// Whether an event carries the response to request `id`.
pub open spec fn answers<V>(event: Event<V>, id: u64) -> bool {
    event matches Event::Message(message) && message.id == Some(id)
}

proof fn lemma_waits_on<W, V>(state: SseState<W>, events: Seq<Event<V>>, id: u64)
    requires
        forall|j: int| 0 <= j < events.len() ==> !answers(#[trigger] events[j], id),
    ensures
        dispatched(state, events).0.waiter(id) == state.waiter(id),
    decreases events.len(),
{
    if events.len() > 0 {
        let before = events.drop_last();
        assert forall|j: int| 0 <= j < before.len() implies !answers(#[trigger] before[j], id) by {
            assert(before[j] == events[j]);
        }
        lemma_waits_on(state, before, id);
        assert(!answers(events[events.len() - 1], id));
    }
}

/// How many requests the opening of a stream, or an exchange, sends whose requests
/// are answered, in order, with the given statuses.
pub open spec fn requests_sent(statuses: Seq<u16>, retried: bool) -> nat
    decreases statuses.len(),
{
    if statuses.len() == 0 {
        0
    } else if challenges(statuses[0], retried) {
        1 + requests_sent(statuses.drop_first(), true)
    } else {
        1
    }
}

/// The opening of a stream, and an exchange, authenticate at most once, so they
/// send at most two requests each, whatever the server answers.
pub proof fn exchanges_authenticate_once(statuses: Seq<u16>)
    ensures
        forall|status: u16| !#[trigger] challenges(status, true),
        requests_sent(statuses, false) <= 2,
{
    reveal_with_fuel(requests_sent, 3);
}

/// Credentials that have been obtained are sent with every later request.
pub proof fn tokens_are_carried<W>(state: SseState<W>, tokens: Tokens, bytes: usize)
    ensures
        ({
            let header = ("authorization"@, "Bearer "@ + tokens.access_token);
            &&& state.with_tokens(tokens).stream_headers().last() == header
            &&& state.with_tokens(tokens).post_headers(bytes).last() == header
        }),
{
}

/// After a challenge the next message opens a new stream.
pub proof fn challenges_reopen_the_stream<W>(state: SseState<W>, id: u64)
    ensures
        state.without(id).disconnected().post_url is None,
        state.without(id).disconnected().waiter(id) is None,
{
}

/// Each change of the state is in its one place, and leaves the rest as it was.
pub proof fn changes_are_in_their_place<W>(
    state: SseState<W>,
    url: Seq<char>,
    generation: u64,
    tokens: Tokens,
    id: u64,
    waiter: W,
)
    requires
        state.generation < u64::MAX,
    ensures
        state.disconnected() == (SseState { post_url: None::<Seq<char>>, ..state }),
        state.connected(url).post_url == Some(url),
        state.connected(url).generation == state.generation + 1,
        state.connected(url) == (SseState {
            post_url: state.connected(url).post_url,
            generation: state.connected(url).generation,
            ..state
        }),
        state.generation == generation ==> state.stream_ended(generation) == (SseState {
            post_url: None::<Seq<char>>,
            ..state
        }),
        state.generation != generation ==> state.stream_ended(generation) == state,
        state.with_tokens(tokens) == (SseState { tokens: Some(tokens), ..state }),
        state.waiting(id, waiter) == (SseState {
            pending: state.pending.insert(id, waiter),
            ..state
        }),
        state.without(id) == (SseState { pending: state.pending.remove(id), ..state }),
        state.pending.contains_key(id) ==> state.waiter(id) == Some(state.pending[id]),
        !state.pending.contains_key(id) ==> state.waiter(id) is None,
{
}

/// Every request has its fixed headers first, then every configured header, in order,
/// and the bearer token at the end wherever there are credentials.
pub proof fn requests_carry_every_header<W>(state: SseState<W>, bytes: usize, i: int)
    requires
        0 <= i < state.extra_headers.len(),
    ensures
        ({
            let opening = state.stream_headers();
            let posting = state.post_headers(bytes);
            let extra = state.extra_headers.len() as int;
            let token = if state.tokens is Some {
                1int
            } else {
                0int
            };
            &&& opening.len() == 2 + extra + token
            &&& opening[0] == ("accept"@, "text/event-stream"@)
            &&& opening[1] == ("cache-control"@, "no-cache"@)
            &&& opening[2 + i] == state.extra_headers[i]
            &&& posting.len() == 3 + extra + token
            &&& posting[0] == ("content-type"@, "application/json"@)
            &&& posting[1] == ("content-length"@, numeral(bytes as nat))
            &&& posting[2] == ("accept"@, "application/json, text/event-stream"@)
            &&& posting[3 + i] == state.extra_headers[i]
            &&& state.tokens is Some ==> opening.last() == (
                "authorization"@,
                "Bearer "@ + state.tokens->0.access_token,
            ) && posting.last() == opening.last()
        }),
{
}

/// Without configured headers a request has its fixed ones, and the bearer token
/// wherever there are credentials.
pub proof fn bare_requests_have_their_fixed_headers<W>(state: SseState<W>, bytes: usize)
    requires
        state.extra_headers.len() == 0,
    ensures
        ({
            let opening = state.stream_headers();
            let posting = state.post_headers(bytes);
            let token = if state.tokens is Some {
                1int
            } else {
                0int
            };
            &&& opening.len() == 2 + token
            &&& opening[0] == ("accept"@, "text/event-stream"@)
            &&& opening[1] == ("cache-control"@, "no-cache"@)
            &&& posting.len() == 3 + token
            &&& posting[0] == ("content-type"@, "application/json"@)
            &&& posting[1] == ("content-length"@, numeral(bytes as nat))
            &&& posting[2] == ("accept"@, "application/json, text/event-stream"@)
            &&& state.tokens is Some ==> opening.last() == (
                "authorization"@,
                "Bearer "@ + state.tokens->0.access_token,
            ) && posting.last() == opening.last()
        }),
{
}

/// Credentials in force are used; others, and all of them after a challenge, are
/// refreshed as they are; without any the user signs in, where a browser may be
/// opened, and else is told that sign-in is required.
pub proof fn tokens_are_used_refreshed_or_signed_in_for<W>(
    state: SseState<W>,
    step: AuthStep,
    challenged: bool,
    interactive: bool,
    now: i64,
)
    requires
        state.authenticates(step, challenged, interactive, now),
    ensures
        state.tokens matches Some(tokens) ==> {
            let fresh = tokens.expires_at <= 0 || tokens.expires_at - now > 60;
            &&& !challenged && fresh ==> step is Ready
            &&& challenged || !fresh ==> (step matches AuthStep::Refresh(old) && old.deep_view()
                == tokens)
        },
        state.tokens is None && interactive ==> step is Authorize,
        state.tokens is None && !interactive ==> (step matches AuthStep::Fail(
            McpError::SignInRequired { server },
        ) && server@ == state.name),
{
}

/// After a failed refresh the user signs in, where a browser may be opened, and else
/// is told that sign-in is required.
pub proof fn sign_in_follows_the_setting<W>(state: SseState<W>, step: AuthStep, interactive: bool)
    requires
        state.signs_in(step, interactive),
    ensures
        interactive ==> step is Authorize,
        !interactive ==> (step matches AuthStep::Fail(McpError::SignInRequired { server })
            && server@ == state.name),
{
}

/// Events are handed out one after the other: those that come later find what the
/// earlier ones left, and what they hand out comes behind.
pub proof fn events_are_handed_out_in_order<W, V>(
    state: SseState<W>,
    first: Seq<Event<V>>,
    second: Seq<Event<V>>,
)
    ensures
        ({
            let (between, handed) = dispatched(state, first);
            let (after, rest) = dispatched(between, second);
            dispatched(state, first + second) == (after, handed + rest)
        }),
    decreases second.len(),
{
    let all = first + second;
    if second.len() == 0 {
        assert(all =~= first);
        let handed = dispatched(state, first).1;
        assert(handed + Seq::<(W, JsonRpcResponse<V>)>::empty() =~= handed);
    } else {
        assert(all.drop_last() =~= first + second.drop_last());
        assert(all.last() == second.last());
        events_are_handed_out_in_order(state, first, second.drop_last());
        let (between, handed) = dispatched(state, first);
        let rest = dispatched(between, second).1;
        assert(dispatched(state, all).1 =~= handed + rest);
    }
}

/// A message is handed to whoever waits for the response with its id, whatever it
/// carries, and that one waits no longer; what nobody waits for, what has no id and
/// what announces an endpoint is handed to nobody and changes nothing.
pub proof fn messages_go_to_whoever_waits<W, V>(
    state: SseState<W>,
    message: JsonRpcResponse<V>,
    endpoint: Seq<char>,
)
    ensures
        ({
            let (after, handed) = dispatched(state, seq![Event::Message(message)]);
            let id = message.id->0;
            &&& message.id is Some && state.pending.contains_key(id) ==> handed == seq![
                (state.pending[id], message),
            ] && after.pending == state.pending.remove(id)
            &&& message.id is Some && !state.pending.contains_key(id) ==> handed.len() == 0 && after
                == state
            &&& message.id is None ==> handed.len() == 0 && after == state
        }),
        dispatched(state, seq![Event::<V>::Endpoint(endpoint)]).0 == state,
        dispatched(state, seq![Event::<V>::Endpoint(endpoint)]).1.len() == 0,
        dispatched(state, Seq::<Event<V>>::empty()).0 == state,
        dispatched(state, Seq::<Event<V>>::empty()).1.len() == 0,
{
    reveal_with_fuel(dispatched, 3);
    let none = Seq::<Event<V>>::empty();
    assert(seq![Event::Message(message)].drop_last() =~= none);
    assert(seq![Event::<V>::Endpoint(endpoint)].drop_last() =~= none);
    if message.id is Some && !state.pending.contains_key(message.id->0) {
        assert(state.pending.remove(message.id->0) =~= state.pending);
        assert(state.without(message.id->0) =~= state);
    }
}

/// A body is JSON exactly where its content type begins with the name of it, in
/// capitals or not, whatever follows it.
pub proof fn content_types_begin_with_their_name(
    name: Seq<char>,
    parameters: Seq<char>,
    value: Seq<char>,
)
    requires
        lower_text(name) == "application/json"@,
    ensures
        json_body(Some(name + parameters)),
        json_body(Some(value)) ==> value.len() >= "application/json"@.len() && lower_text(
            value.take("application/json"@.len() as int),
        ) == "application/json"@,
        !json_body(None),
{
    let n = "application/json"@.len() as int;
    let whole = lower_text(name + parameters);
    assert(name.len() == n);
    assert(whole.subrange(0, n) =~= lower_text(name));
    if json_body(Some(value)) {
        assert(lower_text(value).subrange(0, n) =~= lower_text(value.take(n)));
    }
}

/// An error that tells a status names the server, the status and the start of the
/// answer.
pub proof fn status_errors_are_told(
    error: McpError,
    server: Seq<char>,
    status: u16,
    detail: Seq<char>,
)
    requires
        tells_status(error, server, status, detail),
    ensures
        error matches McpError::SseStatus { server: named, status: told, detail: quoted }
            && named@ == server && told == status && (detail.len() <= 200 ==> quoted@ == detail)
            && (detail.len() > 200 ==> quoted@ == detail.take(200)),
{
}

/// An answer is a challenge exactly where its status says so and the client has not
/// authenticated yet; then one request more is sent, and else none.
pub proof fn challenges_send_one_request_more(status: u16, retried: bool, later: Seq<u16>)
    ensures
        challenges(status, retried) <==> status == 401 && !retried,
        status == 401 && !retried ==> requests_sent(seq![status] + later, retried) == 1
            + requests_sent(later, true),
        status != 401 || retried ==> requests_sent(seq![status] + later, retried) == 1,
{
    assert((seq![status] + later).drop_first() =~= later);
}

} // verus!
