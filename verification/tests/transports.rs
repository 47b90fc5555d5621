//! The two transports, their exchanges and the sign-in cooldown.

use mcp_remote::decimal::{read_decimal, write_decimal};
use mcp_remote::error::McpError;
use mcp_remote::http::cooldown::cooldown_marker;
use mcp_remote::http::transport::{ErrorStep, HttpStep};
use mcp_remote::http::{
    interactive_auth_allowed, is_auth_error_text, non_interactive, AuthStarts, HttpExchange,
    HttpTransport, SignIn,
};
use mcp_remote::oauth::McpOAuthTokens;
use mcp_remote::protocol::{JsonRpcResponse, McpOAuthConfig, McpServerConfig};
use mcp_remote::sse::transport::{waited, OpeningStep, PostStep, StreamStep, Waited};
use mcp_remote::sse::{SseDecoder, SseEvent, SseTransport, StreamExchange};
use mcp_remote::transport::{AuthStep, ResponseHead};

fn config() -> McpServerConfig {
    McpServerConfig {
        url: Some("https://mcp.example/v1/mcp?tenant=a".to_string()),
        headers: vec![("x-key".to_string(), "value".to_string())],
        oauth: Some(McpOAuthConfig {
            authorization_endpoint: None,
            token_endpoint: None,
            scopes: vec!["mcp".to_string()],
            redirect_uri: None,
            client_id: None,
            client_secret: Some("secret".to_string()),
        }),
    }
}

fn tokens(expires_at: i64) -> McpOAuthTokens {
    McpOAuthTokens {
        access_token: "stored-token".to_string(),
        refresh_token: None,
        expires_at,
        client_id: None,
        token_endpoint: None,
        redirect_uri: None,
    }
}

fn head(status: u16) -> ResponseHead {
    ResponseHead { status, challenge: None, session_id: None, content_type: None }
}

fn http(saved: Option<McpOAuthTokens>, interactive: bool) -> HttpTransport {
    HttpTransport::new("server".to_string(), &config(), saved, interactive).expect("transport")
}

fn sse(saved: Option<McpOAuthTokens>) -> SseTransport<&'static str> {
    SseTransport::new("server".to_string(), &config(), saved).expect("transport")
}

fn pairs(list: &[(String, String)]) -> Vec<(&str, &str)> {
    list.iter().map(|(name, value)| (name.as_str(), value.as_str())).collect()
}

fn response(id: Option<u64>) -> JsonRpcResponse<u8> {
    JsonRpcResponse { id, result: Some(1), error: None }
}

const AUTH_LIKE: &str = "Method doesn't allow unregistered callers without established identity";

#[test]
fn http_servers_need_a_url() {
    let mut config = config();
    config.url = None;
    let error = HttpTransport::new("no-url".to_string(), &config, None, true).expect_err("no URL");
    assert!(matches!(error, McpError::HttpWithoutUrl));
    assert_eq!(error.message(), "HTTP MCP server config has no `url`");
}

#[test]
fn sse_servers_need_a_url() {
    let mut config = config();
    config.url = None;
    match SseTransport::<u8>::new("no-url".to_string(), &config, None) {
        Ok(_) => panic!("must not connect without a url"),
        Err(error) => {
            assert!(matches!(error, McpError::SseWithoutUrl));
            assert_eq!(error.message(), "SSE MCP server config has no `url`");
        }
    }
}

#[test]
fn transports_keep_their_configuration() {
    let transport = http(None, true);
    assert_eq!(transport.name(), "server");
    assert_eq!(transport.url(), "https://mcp.example/v1/mcp?tenant=a");
    assert_eq!(transport.oauth_config().unwrap().client_secret.as_deref(), Some("secret"));
    assert_eq!(transport.session(), None);
    assert_eq!(transport.bearer(), None);
    let transport = sse(None);
    assert_eq!(transport.name(), "server");
    assert_eq!(transport.url(), "https://mcp.example/v1/mcp?tenant=a");
    assert_eq!(transport.oauth_config().unwrap().scopes, vec!["mcp".to_string()]);
    assert_eq!(transport.generation(), 0);
}

#[test]
fn http_requests_carry_session_and_token() {
    let mut transport = http(Some(tokens(0)), true);
    assert_eq!(transport.bearer().as_deref(), Some("stored-token"));
    let request = transport.send("{}");
    assert_eq!(request.url, "https://mcp.example/v1/mcp?tenant=a");
    assert_eq!(request.body.as_deref(), Some("{}"));
    assert_eq!(
        pairs(&request.headers),
        vec![
            ("content-type", "application/json"),
            ("accept", "application/json, text/event-stream"),
            ("authorization", "Bearer stored-token"),
            ("x-key", "value"),
        ]
    );
    transport.store_session(&Some("s1".to_string()));
    transport.store_session(&None);
    assert_eq!(transport.session().as_deref(), Some("s1"));
    assert_eq!(pairs(&transport.send("{}").headers)[2], ("mcp-session-id", "s1"));
    assert_eq!(pairs(&http(None, true).send("").headers).len(), 3);
}

#[test]
fn auth_like_refusals_are_recognized() {
    assert!(is_auth_error_text(AUTH_LIKE));
    assert!(is_auth_error_text("Request is MISSING required authentication credential."));
    assert!(is_auth_error_text("Expected OAuth 2 access token"));
    assert!(is_auth_error_text("authentication credential"));
    assert!(is_auth_error_text("calls WITHOUT ESTABLISHED IDENTITY are refused"));
    assert!(!is_auth_error_text("The caller does not have permission"));
    assert!(!is_auth_error_text(""));
}

#[test]
fn exchanges_authenticate_once() {
    let mut transport = http(None, true);
    let mut exchange = HttpExchange::new("{}", true);
    let mut refused = head(401);
    refused.challenge = Some("Bearer".to_string());
    match exchange.answered(&mut transport, &refused) {
        HttpStep::Authenticate { challenge } => assert_eq!(challenge.as_deref(), Some("Bearer")),
        step => panic!("unexpected {step:?}"),
    }
    assert!(matches!(exchange.answered(&mut transport, &refused), HttpStep::ReadError));
    assert!(matches!(
        exchange.error_read(&transport, 403, AUTH_LIKE),
        ErrorStep::Fail(McpError::HttpStatus { status: 403, .. })
    ));
}

#[test]
fn requests_are_repeated_with_the_same_message() {
    let mut transport = http(None, true);
    let mut exchange = HttpExchange::new("{\"id\":1}", true);
    let first = exchange.request(&transport);
    assert_eq!(first.url, "https://mcp.example/v1/mcp?tenant=a");
    assert_eq!(first.body.as_deref(), Some("{\"id\":1}"));
    assert!(matches!(
        exchange.answered(&mut transport, &head(401)),
        HttpStep::Authenticate { challenge: None }
    ));
    transport.authorized(tokens(0));
    let second = exchange.request(&transport);
    assert_eq!(second.body, first.body);
    assert_eq!(pairs(&second.headers)[2], ("authorization", "Bearer stored-token"));
}

#[test]
fn auth_like_forbidden_answers_authenticate() {
    let mut transport = http(Some(tokens(0)), true);
    let mut exchange = HttpExchange::new("{}", true);
    assert!(matches!(exchange.answered(&mut transport, &head(403)), HttpStep::ReadError));
    assert!(matches!(exchange.error_read(&transport, 403, AUTH_LIKE), ErrorStep::Authenticate));
    assert!(matches!(transport.start_auth(None), AuthStep::Ready));
    let mut accepted = head(200);
    accepted.content_type = Some("application/json".to_string());
    assert!(matches!(exchange.answered(&mut transport, &accepted), HttpStep::ReadJson));
}

#[test]
fn genuine_refusals_are_surfaced() {
    let transport = http(None, true);
    let mut exchange = HttpExchange::new("{}", true);
    match exchange.error_read(&transport, 403, "The caller does not have permission") {
        ErrorStep::Fail(error) => assert_eq!(
            error.message(),
            "MCP server 'server' returned HTTP 403: The caller does not have permission"
        ),
        ErrorStep::Authenticate => panic!("a genuine refusal"),
    }
    match exchange.error_read(&transport, 500, AUTH_LIKE) {
        ErrorStep::Fail(error) => assert!(matches!(error, McpError::HttpStatus { status: 500, .. })),
        ErrorStep::Authenticate => panic!("not a refusal at all"),
    }
}

#[test]
fn long_details_are_cut() {
    let transport = http(None, true);
    let detail = "\u{4e16}".repeat(201);
    match HttpExchange::new("{}", true).error_read(&transport, 502, &detail) {
        ErrorStep::Fail(error) => assert_eq!(
            error.message(),
            format!("MCP server 'server' returned HTTP 502: {}", "\u{4e16}".repeat(200))
        ),
        ErrorStep::Authenticate => panic!("not a refusal"),
    }
}

#[test]
fn accepted_messages_are_done() {
    let mut transport = http(None, true);
    let mut named = head(202);
    named.session_id = Some("s2".to_string());
    assert!(matches!(HttpExchange::new("{}", true).answered(&mut transport, &named), HttpStep::Done));
    assert_eq!(transport.session().as_deref(), Some("s2"));
    assert!(matches!(HttpExchange::new("{}", false).answered(&mut transport, &head(200)), HttpStep::Done));
    let mut failed = head(500);
    failed.session_id = Some("s3".to_string());
    assert!(matches!(
        HttpExchange::new("{}", true).answered(&mut transport, &failed),
        HttpStep::ReadError
    ));
    assert_eq!(transport.session().as_deref(), Some("s2"));
}

#[test]
fn content_types_tell_how_to_read() {
    let mut transport = http(None, true);
    let mut accepted = head(200);
    accepted.content_type = Some("text/event-stream; charset=utf-8".to_string());
    assert!(matches!(
        HttpExchange::new("{}", true).answered(&mut transport, &accepted),
        HttpStep::ReadEvents
    ));
    accepted.content_type = Some("Text/Event-Stream".to_string());
    assert!(matches!(
        HttpExchange::new("{}", true).answered(&mut transport, &accepted),
        HttpStep::ReadJson
    ));
    assert!(matches!(
        HttpExchange::new("{}", true).answered(&mut transport, &head(200)),
        HttpStep::ReadJson
    ));
}

#[test]
fn usable_tokens_are_used() {
    let transport = http(Some(tokens(1_000)), true);
    assert!(matches!(transport.start_auth_at(None, 939), AuthStep::Ready));
    match transport.start_auth_at(None, 940) {
        AuthStep::Refresh(old) => assert_eq!(old.access_token, "stored-token"),
        step => panic!("unexpected {step:?}"),
    }
    assert!(matches!(transport.start_auth_at(Some("Bearer"), 0), AuthStep::Refresh(_)));
    assert!(matches!(http(Some(tokens(1)), true).reauthenticate(), AuthStep::Refresh(_)));
    assert!(matches!(http(None, true).start_auth_at(None, 0), AuthStep::CheckCooldown));
}

#[test]
fn sign_in_needs_a_browser() {
    let mut transport = http(None, false);
    match transport.refresh_done(None) {
        AuthStep::Fail(error) => assert_eq!(
            error.message(),
            "MCP server 'server' requires OAuth sign-in; run `jcode` interactively to authorize"
        ),
        step => panic!("unexpected {step:?}"),
    }
    assert!(matches!(transport.refresh_done(Some(tokens(0))), AuthStep::Ready));
    assert_eq!(transport.bearer().as_deref(), Some("stored-token"));
    assert!(matches!(transport.login(), AuthStep::Authorize));
}

#[test]
fn sign_in_waits_for_the_cooldown() {
    let mut transport = http(None, true);
    assert!(matches!(transport.refresh_done(None), AuthStep::CheckCooldown));
    assert!(matches!(transport.cooldown_checked(true), AuthStep::Authorize));
    match transport.cooldown_checked(false) {
        AuthStep::Fail(error) => assert_eq!(
            error.message(),
            "MCP server 'server' recently opened an OAuth sign-in window; refusing to open another for 10 minutes"
        ),
        step => panic!("unexpected {step:?}"),
    }
    transport.authorized(tokens(0));
    assert!(matches!(transport.start_auth_at(None, 0), AuthStep::Ready));
}

#[test]
fn markers_refuse_for_ten_minutes() {
    let marker = cooldown_marker(1_000);
    assert_eq!(marker, "1000");
    let asked = |now: u64| interactive_auth_allowed(false, None, Some(&marker), Some(now));
    assert_eq!(asked(1_000), SignIn::Refused);
    assert_eq!(asked(1_599), SignIn::Refused);
    assert_eq!(asked(1_600), SignIn::Allowed);
    assert_eq!(asked(5), SignIn::Refused);
    assert_eq!(interactive_auth_allowed(false, None, Some(" 1000\n"), Some(1_001)), SignIn::Refused);
    assert_eq!(interactive_auth_allowed(false, None, Some("+1000"), Some(1_001)), SignIn::Refused);
    assert_eq!(interactive_auth_allowed(false, None, Some("soon"), Some(1_001)), SignIn::Allowed);
    assert_eq!(interactive_auth_allowed(false, None, Some(&marker), None), SignIn::Allowed);
}

#[test]
fn starts_refuse_for_ten_minutes() {
    let second = 1_000_000_000;
    assert_eq!(
        interactive_auth_allowed(false, Some(600 * second - 1), None, None),
        SignIn::Refused
    );
    assert_eq!(interactive_auth_allowed(false, Some(600 * second), None, None), SignIn::Allowed);
    assert_eq!(interactive_auth_allowed(false, None, None, Some(7)), SignIn::Allowed);
    assert_eq!(interactive_auth_allowed(true, Some(0), Some("7"), Some(7)), SignIn::Unlimited);
}

#[test]
fn starts_are_remembered_by_server() {
    let minute = 60_000_000_000;
    let mut starts = AuthStarts::new();
    assert_eq!(starts.elapsed("a", 5), None);
    assert_eq!(starts.allow("a", false, minute, None, None), SignIn::Allowed);
    assert_eq!(starts.elapsed("a", 3 * minute), Some(2 * minute));
    assert_eq!(starts.elapsed("a", 0), Some(0));
    assert_eq!(starts.allow("a", false, 2 * minute, None, None), SignIn::Refused);
    assert_eq!(starts.allow("b", false, 2 * minute, None, None), SignIn::Allowed);
    assert_eq!(starts.allow("a", true, 2 * minute, None, None), SignIn::Unlimited);
    assert_eq!(starts.elapsed("a", 2 * minute), Some(minute));
    assert_eq!(starts.allow("a", false, 11 * minute, None, None), SignIn::Allowed);
    assert_eq!(starts.elapsed("a", 11 * minute), Some(0));
    starts.clear("a");
    assert_eq!(starts.elapsed("a", 11 * minute), None);
    assert_eq!(starts.elapsed("b", 2 * minute), Some(0));
    assert_eq!(starts.allow("a", false, 11 * minute, Some("90"), Some(100)), SignIn::Refused);
    assert_eq!(starts.elapsed("a", 11 * minute), None);
}

#[test]
fn browsers_can_be_ruled_out() {
    assert!(!non_interactive(None));
    assert!(!non_interactive(Some("0")));
    assert!(non_interactive(Some("1")));
    assert!(non_interactive(Some("")));
}

#[test]
fn numerals_read_back() {
    for n in [0_u64, 7, 10, 99, 600, 65_535, u64::MAX] {
        let text = write_decimal(n);
        assert_eq!(text, n.to_string());
        let chars: Vec<char> = text.chars().collect();
        assert_eq!(read_decimal(&chars), Some(n));
    }
    for text in ["", "+", "-1", "1x", " 1", "18446744073709551616", "++1"] {
        let chars: Vec<char> = text.chars().collect();
        assert_eq!(read_decimal(&chars), text.parse::<u64>().ok(), "{text}");
    }
    let padded: Vec<char> = "+0007".chars().collect();
    assert_eq!(read_decimal(&padded), Some(7));
}

#[test]
fn streams_are_opened_once() {
    let mut transport = sse(Some(tokens(0)));
    let request = transport.connect().expect("request");
    assert_eq!(request.url, "https://mcp.example/v1/mcp?tenant=a");
    assert_eq!(request.body, None);
    assert_eq!(
        pairs(&request.headers),
        vec![
            ("accept", "text/event-stream"),
            ("cache-control", "no-cache"),
            ("x-key", "value"),
            ("authorization", "Bearer stored-token"),
        ]
    );
    assert_eq!(transport.endpoint_announced("/message?sessionId=1").expect("endpoint"), 1);
    assert!(transport.connect().is_none());
    let request = transport.send("\u{e9}").expect("request");
    assert_eq!(request.url, "https://mcp.example/message?sessionId=1");
    assert_eq!(
        pairs(&request.headers),
        vec![
            ("content-type", "application/json"),
            ("content-length", "2"),
            ("accept", "application/json, text/event-stream"),
            ("x-key", "value"),
            ("authorization", "Bearer stored-token"),
        ]
    );
    assert_eq!(request.body.as_deref(), Some("\u{e9}"));
}

#[test]
fn messages_need_an_endpoint() {
    let mut transport = sse(None);
    let error = transport.send("{}").expect_err("no endpoint");
    assert!(matches!(error, McpError::NoMessageEndpoint));
    assert_eq!(error.message(), "MCP SSE stream has no message endpoint");
    let error = transport.endpoint_announced("https://[").expect_err("no URL");
    assert!(matches!(error, McpError::InvalidEndpoint { .. }));
    assert_eq!(error.message(), "MCP SSE server sent an invalid endpoint URL");
    assert_eq!(transport.generation(), 0);
}

#[test]
fn streams_announce_their_endpoint() {
    let transport = sse(None);
    let mut decoder = SseDecoder::default();
    assert!(matches!(
        transport.opening_chunk(&mut decoder, Some(b"data: {\"id\":1}\n\nevent: endpo")),
        OpeningStep::ReadOn
    ));
    match transport.opening_chunk(&mut decoder, Some(b"int\ndata: /m\n\ndata: left")) {
        OpeningStep::Announced(endpoint) => assert_eq!(endpoint, "/m"),
        step => panic!("unexpected {step:?}"),
    }
    let frames = decoder.push_frames("\n\n");
    assert_eq!(frames[0].data, "left");
    match transport.opening_chunk(&mut decoder, None) {
        OpeningStep::Fail(error) => assert_eq!(
            error.message(),
            "MCP SSE server 'server' closed before sending an endpoint"
        ),
        step => panic!("unexpected {step:?}"),
    }
}

#[test]
fn older_streams_do_not_clear_newer_ones() {
    let mut transport = sse(None);
    let first = transport.endpoint_announced("a").expect("endpoint");
    let second = transport.endpoint_announced("b").expect("endpoint");
    transport.stream_ended(first);
    assert_eq!(transport.send("{}").expect("request").url, "https://mcp.example/v1/b");
    transport.stream_ended(second);
    assert!(transport.send("{}").is_err());
    transport.endpoint_announced("c").expect("endpoint");
    transport.clear_stream();
    assert!(transport.connect().is_some());
    assert_eq!(transport.stream_opened("https://other.example/d".to_string()), 4);
    assert_eq!(transport.send("{}").expect("request").url, "https://other.example/d");
}

#[test]
fn stream_openings_authenticate_once() {
    let mut exchange = StreamExchange::new();
    assert!(matches!(
        exchange.answered(&head(401)),
        StreamStep::Authenticate { challenge: None }
    ));
    assert!(matches!(exchange.answered(&head(401)), StreamStep::ReadError));
    assert!(matches!(exchange.answered(&head(503)), StreamStep::ReadError));
    assert!(matches!(exchange.answered(&head(200)), StreamStep::ReadEvents));
    assert_eq!(
        sse(None).status_error(503, "down").message(),
        "MCP SSE server 'server' returned HTTP 503: down"
    );
}

#[test]
fn responses_reach_whoever_waits() {
    let mut transport = sse(None);
    transport.wait_for(1, "one");
    transport.wait_for(2, "two");
    transport.wait_for(2, "again");
    let handed = transport.dispatch(vec![
        SseEvent::Message(response(Some(2))),
        SseEvent::Message(response(None)),
        SseEvent::Endpoint("/x".to_string()),
        SseEvent::Message(response(Some(2))),
        SseEvent::Message(response(Some(9))),
    ]);
    assert_eq!(handed.len(), 1);
    assert_eq!(handed[0].0, "again");
    assert_eq!(handed[0].1.id, Some(2));
    assert_eq!(transport.deliver(&response(Some(1))), Some("one"));
    assert_eq!(transport.deliver(&response(Some(1))), None);
    assert_eq!(transport.cancel(2), None);
}

#[test]
fn challenged_posts_start_again() {
    let mut transport = sse(None);
    transport.endpoint_announced("a").expect("endpoint");
    transport.wait_for(5, "waiter");
    let mut exchange = transport.exchange("{\"id\":5}", 5, true);
    assert!(exchange.needs_waiter());
    let first = exchange.request(&transport).expect("request");
    assert_eq!(first.url, "https://mcp.example/v1/a");
    assert_eq!(first.body.as_deref(), Some("{\"id\":5}"));
    let mut refused = head(401);
    refused.challenge = Some("Bearer".to_string());
    match exchange.answered(&mut transport, &refused) {
        PostStep::Authenticate { challenge } => assert_eq!(challenge.as_deref(), Some("Bearer")),
        step => panic!("unexpected {step:?}"),
    }
    assert!(transport.connect().is_some());
    assert_eq!(transport.cancel(5), None);
    assert!(matches!(exchange.request(&transport), Err(McpError::NoMessageEndpoint)));
    transport.endpoint_announced("b").expect("endpoint");
    let second = exchange.request(&transport).expect("request");
    assert_eq!(second.url, "https://mcp.example/v1/b");
    assert_eq!(second.body, first.body);
    transport.wait_for(5, "waiter");
    assert!(matches!(exchange.answered(&mut transport, &refused), PostStep::ReadError));
    assert_eq!(transport.cancel(5), None);
}

#[test]
fn posts_are_answered_in_the_body_or_on_the_stream() {
    let mut transport = sse(None);
    transport.wait_for(5, "waiter");
    let mut exchange = transport.exchange("{}", 5, true);
    assert!(matches!(exchange.answered(&mut transport, &head(202)), PostStep::Wait));
    assert!(matches!(exchange.answered(&mut transport, &head(200)), PostStep::Wait));
    let mut json = head(200);
    json.content_type = Some("Application/JSON; charset=utf-8".to_string());
    assert!(matches!(exchange.answered(&mut transport, &json), PostStep::ReadJson));
    json.status = 202;
    assert!(matches!(exchange.answered(&mut transport, &json), PostStep::Wait));
    assert!(exchange.json_read::<_, u8>(&mut transport, None).is_none());
    let read = exchange.json_read(&mut transport, Some(response(Some(5)))).expect("response");
    assert_eq!(read.id, Some(5));
    assert_eq!(transport.cancel(5), None);
}

#[test]
fn notifications_expect_nothing() {
    let mut transport = sse(None);
    transport.endpoint_announced("a").expect("endpoint");
    let mut exchange = transport.notify("{\"method\":\"\u{e9}\"}");
    assert!(!exchange.needs_waiter());
    let request = exchange.request(&transport).expect("request");
    assert_eq!(request.url, "https://mcp.example/v1/a");
    assert_eq!(request.body.as_deref(), Some("{\"method\":\"\u{e9}\"}"));
    assert_eq!(pairs(&request.headers)[1], ("content-length", "15"));
    assert!(matches!(exchange.answered(&mut transport, &head(200)), PostStep::Done));
    assert!(matches!(exchange.answered(&mut transport, &head(202)), PostStep::Done));
}

#[test]
fn waiting_ends_with_a_response_or_an_error() {
    assert_eq!(waited(Waited::Arrived(response(Some(3)))).expect("response").id, Some(3));
    let error = waited::<u8>(Waited::TimedOut).expect_err("late");
    assert!(matches!(error, McpError::ResponseTimeout));
    assert_eq!(error.message(), "MCP SSE request timeout");
    let error = waited::<u8>(Waited::Closed).expect_err("closed");
    assert!(matches!(error, McpError::EventStreamClosed));
    assert_eq!(error.message(), "MCP SSE event stream closed");
}

#[test]
fn sse_sign_in_goes_straight_to_the_browser() {
    let mut transport = sse(None);
    assert!(matches!(transport.start_auth(None, true), AuthStep::Authorize));
    assert!(matches!(
        transport.start_auth_at(None, false, 0),
        AuthStep::Fail(McpError::SignInRequired { .. })
    ));
    assert!(matches!(transport.refresh_done(None, true), AuthStep::Authorize));
    transport.authorized(tokens(1_000));
    assert!(matches!(transport.start_auth_at(None, true, 939), AuthStep::Ready));
    assert!(matches!(transport.start_auth_at(None, true, 940), AuthStep::Refresh(_)));
    transport.endpoint_announced("a").expect("endpoint");
    assert!(matches!(transport.reauthenticate(true), AuthStep::Refresh(_)));
    assert!(transport.connect().is_some());
    assert!(matches!(transport.refresh_done(Some(tokens(0)), true), AuthStep::Ready));
    assert!(matches!(transport.reauthenticate(true), AuthStep::Ready));
}
