//! Discovery, authorization and credentials.

use mcp_remote::clock::LAST_SECOND;
use mcp_remote::error::McpError;
use mcp_remote::oauth::authorize::{
    callback_target, ephemeral_redirect_uri, known_client_id, registration_outcome,
    scope_to_request, CallbackTarget,
};
use mcp_remote::oauth::discovery::{
    issuer_url, resource_metadata_url, server_base, well_known, well_known_path, WELL_KNOWN_ROOM,
};
use mcp_remote::oauth::flow::{
    exchange_outcome, plan, presentation, refresh_outcome, refresh_outcome_now, refresh_request,
    Presentation,
};
use mcp_remote::oauth::tokens::{exchanged_at, exchanged_now, refreshed_at};
use mcp_remote::oauth::{
    auth_dir, interactive_auth_cooldown_path, requested_scope, resource_metadata_from_challenge,
    token_path, AuthBase, AuthServerMetadata, ClientStep, Discovery, Grant, McpOAuthTokens, Plan,
    ProtectedResourceMetadata, Search, TokenResponse,
};
use mcp_remote::protocol::McpOAuthConfig;
use mcp_remote::web_url::{can_append_pairs, ParsedUrl, MAX_URL_CHARS};
use serde_json::Value;

fn parsed(text: &str) -> ParsedUrl {
    ParsedUrl::parse(text).expect("a URL")
}

fn texts(list: &[&str]) -> Vec<String> {
    list.iter().map(|text| text.to_string()).collect()
}

fn config() -> McpOAuthConfig {
    McpOAuthConfig {
        authorization_endpoint: None,
        token_endpoint: None,
        scopes: Vec::new(),
        redirect_uri: None,
        client_id: None,
        client_secret: None,
    }
}

fn metadata() -> AuthServerMetadata {
    AuthServerMetadata {
        authorization_endpoint: Some("https://auth.example/authorize".to_string()),
        token_endpoint: Some("https://auth.example/token".to_string()),
        registration_endpoint: Some("https://auth.example/register".to_string()),
        scopes_supported: Vec::new(),
    }
}

fn tokens() -> McpOAuthTokens {
    McpOAuthTokens {
        access_token: "access".to_string(),
        refresh_token: Some("refresh".to_string()),
        expires_at: 0,
        client_id: Some("client".to_string()),
        token_endpoint: Some("https://auth.example/token".to_string()),
        redirect_uri: Some("http://127.0.0.1:7777/callback".to_string()),
    }
}

fn grant() -> Grant {
    Grant {
        authorization_endpoint: "https://auth.example/authorize?tenant=a".to_string(),
        token_endpoint: "https://auth.example/token".to_string(),
        scope: Some("mcp offline".to_string()),
        client_secret: Some("secret".to_string()),
        server_url: "https://mcp.example/mcp".to_string(),
        redirect_uri: "http://127.0.0.1:7777/callback".to_string(),
        client_id: "client".to_string(),
    }
}

fn pairs(list: &[(String, String)]) -> Vec<(&str, &str)> {
    list.iter().map(|(name, value)| (name.as_str(), value.as_str())).collect()
}

#[test]
fn parses_resource_metadata_from_challenge() {
    let header =
        r#"Bearer error="invalid_token", resource_metadata="https://mcp.granola.ai/.well-known/oauth-protected-resource""#;
    assert_eq!(
        resource_metadata_from_challenge(header).as_deref(),
        Some("https://mcp.granola.ai/.well-known/oauth-protected-resource")
    );
}

#[test]
fn challenge_without_metadata_yields_none() {
    assert!(resource_metadata_from_challenge("Bearer realm=\"mcp\"").is_none());
}

#[test]
fn well_known_preserves_issuer_path() {
    let issuer = ParsedUrl::parse("https://auth.atlassian.com/VCeDsk8ZHncYF1g234fKtc4lNipbBhu3")
        .unwrap();
    assert_eq!(
        well_known(&issuer, "/.well-known/oauth-authorization-server"),
        "https://auth.atlassian.com/VCeDsk8ZHncYF1g234fKtc4lNipbBhu3/.well-known/oauth-authorization-server"
    );
}

#[test]
fn no_advertised_scopes_means_no_scope_parameter() {
    assert_eq!(requested_scope(&[]), None);
}

#[test]
fn advertised_scopes_are_requested_verbatim() {
    let scopes = ["mcp.access".to_string()];
    assert_eq!(requested_scope(&scopes).as_deref(), Some("mcp.access"));
}

#[test]
fn protected_resource_scopes_can_supply_missing_authorization_scopes() {
    let document: Value = serde_json::from_str(
        r#"{
            "authorization_servers": ["https://auth.example/issuer"],
            "scopes_supported": ["read:jira-work", "search:jira-work"]
        }"#,
    )
    .unwrap();
    let list = |name: &str| -> Vec<String> {
        document[name]
            .as_array()
            .unwrap()
            .iter()
            .map(|item| item.as_str().unwrap().to_string())
            .collect()
    };
    let metadata = ProtectedResourceMetadata {
        authorization_servers: list("authorization_servers"),
        scopes_supported: list("scopes_supported"),
    };
    assert_eq!(
        requested_scope(&metadata.scopes_supported).as_deref(),
        Some("read:jira-work search:jira-work")
    );
}

#[test]
fn duplicate_offline_synonyms_are_collapsed() {
    let scopes = [
        "offline_access".to_string(),
        "offline".to_string(),
        "mcp.access".to_string(),
    ];
    let requested = requested_scope(&scopes).expect("scope");
    assert_eq!(requested, "offline_access mcp.access");
    assert!(
        !requested.split(' ').any(|s| s == "offline"),
        "only one offline synonym should be requested: {requested}"
    );
}

#[test]
fn expiry_uses_a_leading_skew() {
    let mut tokens = McpOAuthTokens {
        access_token: "a".into(),
        refresh_token: None,
        expires_at: 0,
        client_id: None,
        token_endpoint: None,
        redirect_uri: None,
    };
    assert!(!tokens.is_expired(), "0 means unknown expiry, not expired");
    tokens.expires_at = chrono::Utc::now().timestamp() + 10;
    assert!(tokens.is_expired(), "within the 60s skew window");
    tokens.expires_at = chrono::Utc::now().timestamp() + 600;
    assert!(!tokens.is_expired());
}

#[test]
fn expiry_is_exact_to_the_second() {
    let mut tokens = tokens();
    tokens.expires_at = 1_000;
    assert!(!tokens.is_expired_at(939));
    assert!(tokens.is_expired_at(940));
    tokens.expires_at = -5;
    assert!(!tokens.is_expired_at(i64::MAX));
    tokens.expires_at = i64::MAX;
    assert!(!tokens.is_expired_at(0));
}

#[test]
fn challenges_are_read_in_every_shape() {
    let value = |header: &str| resource_metadata_from_challenge(header);
    assert_eq!(value("Bearer resource_metadata=https://a/m").as_deref(), Some("https://a/m"));
    assert_eq!(value("resource_metadata=https://a/m, ").as_deref(), Some("https://a/m,"));
    assert_eq!(value("resource_metadata=https://a/m,").as_deref(), Some("https://a/m"));
    assert_eq!(value("resource_metadata=\"\"").as_deref(), None);
    assert_eq!(value("resource_metadata=\" ,\""), None);
    assert_eq!(
        value("resource_metadata=\"x\", resource_metadata=\"y\"").as_deref(),
        Some("x")
    );
}

#[test]
fn the_scope_listed_first_wins() {
    let scopes = texts(&["a", "offline", "b", "offline_access", "offline"]);
    assert_eq!(requested_scope(&scopes).as_deref(), Some("a offline b"));
    let scopes = texts(&["b", "a", "b"]);
    assert_eq!(requested_scope(&scopes).as_deref(), Some("b a b"));
}

#[test]
fn configured_scopes_come_first() {
    let mut config = config();
    let advertised = texts(&["x", "offline", "offline_access"]);
    assert_eq!(scope_to_request(Some(&config), &advertised).as_deref(), Some("x offline"));
    assert_eq!(scope_to_request(None, &[]), None);
    config.scopes = texts(&["offline", "offline_access"]);
    assert_eq!(
        scope_to_request(Some(&config), &advertised).as_deref(),
        Some("offline offline_access")
    );
}

#[test]
fn paths_are_joined_by_one_slash() {
    assert_eq!(well_known_path("/", "/token"), "/token");
    assert_eq!(well_known_path("", "token"), "/token");
    assert_eq!(well_known_path("/a/b//", "//token"), "/a/b/token");
}

#[test]
fn well_known_addresses_drop_the_query() {
    let base = parsed("https://mcp.example:8443/v1/mcp?x=1#frag");
    assert_eq!(well_known(&base, "/authorize"), "https://mcp.example:8443/v1/mcp/authorize#frag");
    assert_eq!(well_known(&parsed("https://mcp.example"), "/token"), "https://mcp.example/token");
}

#[test]
fn queries_and_trailing_slashes_make_no_difference() {
    let suffix = "/.well-known/oauth-protected-resource";
    let address = well_known(&parsed("https://mcp.example/v1/mcp"), suffix);
    for text in ["https://mcp.example/v1/mcp//", "https://mcp.example:443/v1/mcp/?tenant=a"] {
        assert_eq!(well_known(&parsed(text), suffix), address);
    }
}

#[test]
fn paths_are_escaped_where_they_have_to_be() {
    let base = parsed("https://user:pw@mcp.example/a%20b?x#f");
    assert_eq!(base.components().username, "user");
    assert_eq!(base.components().password.as_deref(), Some("pw"));
    assert_eq!(base.components().path, "/a%20b");
    assert_eq!(base.at_path("/c d"), "https://user:pw@mcp.example/c%20d#f");
    let base = parsed("http://[::1]:8080/x");
    assert_eq!(base.origin(), "http://[::1]:8080");
    assert_eq!(base.at_path("/a//b.c/~_-"), "http://[::1]:8080/a//b.c/~_-");
    assert_eq!(base.at_path("/a/../b"), "http://[::1]:8080/b");
    assert_eq!(base.at_path("/a/%2e%2E/b"), "http://[::1]:8080/b");
}

#[test]
fn plain_paths_are_taken_as_they_are() {
    let base = parsed("https://mcp.example/x?y#z");
    let plain: String =
        ('!'..='~').filter(|c| !"\"#<>?`{}\\".contains(*c)).collect();
    let path = format!("/{plain}/..a/.well-known/%20");
    assert_eq!(base.at_path(&path), format!("https://mcp.example{path}#z"));
    for c in "\"#<>?`{} ".chars() {
        assert_ne!(base.at_path(&format!("/{c}")), format!("https://mcp.example/{c}#z"));
    }
}

#[test]
fn origins_are_those_of_the_innermost_url() {
    assert_eq!(parsed("https://user@MCP.example:443/a?b#c").origin(), "https://mcp.example");
    assert_eq!(parsed("wss://mcp.example:80/a").origin(), "wss://mcp.example:80");
    assert_eq!(parsed("ws://mcp.example:80/a").origin(), "ws://mcp.example");
    assert_eq!(parsed("ftp://127.1:2121").origin(), "ftp://127.0.0.1:2121");
    assert_eq!(parsed("data:text/plain,x").origin(), "null");
    assert_eq!(parsed("file:///etc/x").origin(), "null");
    assert_eq!(parsed("blob:https://mcp.example:8443/id").origin(), "https://mcp.example:8443");
    assert_eq!(parsed("blob:blob:http://mcp.example/\u{e9}").origin(), "http://mcp.example");
    assert_eq!(parsed("blob:nothing").origin(), "null");
    assert_eq!(parsed("blob:blob:").origin(), "null");
    let nested = format!("{}http://mcp.example/x", "blob:".repeat(500));
    assert_eq!(parsed(&nested).origin(), "http://mcp.example");
}

#[test]
fn deeply_nested_issuers_are_only_parsed() {
    let base = parsed("https://mcp.example/mcp");
    let nested = format!("{}http://mcp.example/x", "blob:".repeat(100_000));
    let issuer = issuer_url(&base, &[nested.clone()]);
    assert_eq!(issuer.components().scheme, "blob");
    let mut config = config();
    config.redirect_uri = Some(nested);
    let error = callback_target(Some(&config), None).expect_err("refused");
    assert!(matches!(error, McpError::RedirectNotLoopback));
}

#[test]
fn server_urls_have_to_be_urls() {
    assert!(server_base("https://mcp.example/mcp").is_ok());
    let error = server_base("not a url").expect_err("no URL");
    assert!(matches!(error, McpError::InvalidServerUrl { .. }));
    assert_eq!(error.message(), "Invalid MCP server URL");
}

#[test]
fn resource_metadata_is_where_the_challenge_says() {
    let base = parsed("https://mcp.example/mcp");
    assert!(base.has_room_for(WELL_KNOWN_ROOM));
    let long = parsed(&format!("https://mcp.example/{}", "a".repeat(MAX_URL_CHARS / 2)));
    assert!(!long.has_room_for(WELL_KNOWN_ROOM));
    assert_eq!(
        resource_metadata_url(&long, Some("Bearer resource_metadata=\"https://r.example/m\"")),
        "https://r.example/m"
    );
    assert_eq!(
        resource_metadata_url(&base, Some("Bearer resource_metadata=\"https://r.example/m\"")),
        "https://r.example/m"
    );
    for challenge in [None, Some("Bearer")] {
        assert_eq!(
            resource_metadata_url(&base, challenge),
            "https://mcp.example/mcp/.well-known/oauth-protected-resource"
        );
    }
}

#[test]
fn the_issuer_is_the_first_named_server() {
    let base = parsed("https://mcp.example:444/mcp?x");
    let named = texts(&["https://a.example/t", "https://b.example"]);
    assert_eq!(issuer_url(&base, &named).components().path, "/t");
    assert_eq!(issuer_url(&base, &[]).origin(), "https://mcp.example:444");
    assert_eq!(issuer_url(&base, &[]).components().path, "/");
    let unreadable = texts(&["nonsense"]);
    assert_eq!(issuer_url(&base, &unreadable).components().path, "/mcp");
}

fn found(search: Search) -> AuthServerMetadata {
    match search {
        Search::Found(meta) => meta,
        Search::Ask(_) => panic!("the search should have ended"),
    }
}

fn next(search: Search) -> Discovery {
    match search {
        Search::Ask(discovery) => discovery,
        Search::Found(_) => panic!("the search should go on"),
    }
}

#[test]
fn discovery_asks_both_addresses() {
    let base = parsed("https://mcp.example/mcp");
    let resource = ProtectedResourceMetadata {
        authorization_servers: texts(&["https://auth.example/tenant"]),
        scopes_supported: texts(&["read"]),
    };
    let discovery = Discovery::for_resource(&base, Some(resource));
    assert!(discovery.has_room());
    assert_eq!(
        discovery.address(),
        "https://auth.example/tenant/.well-known/oauth-authorization-server"
    );
    let mut incomplete = metadata();
    incomplete.token_endpoint = None;
    let discovery = next(discovery.answered(Some(incomplete)));
    assert_eq!(
        discovery.address(),
        "https://auth.example/tenant/.well-known/openid-configuration"
    );
    let meta = found(discovery.answered(Some(metadata())));
    assert_eq!(meta.scopes_supported, texts(&["read"]));
    assert_eq!(meta.token_endpoint.as_deref(), Some("https://auth.example/token"));
}

#[test]
fn discovery_prefers_the_scopes_of_the_authorization_server() {
    let base = parsed("https://mcp.example/mcp");
    let resource = ProtectedResourceMetadata {
        authorization_servers: Vec::new(),
        scopes_supported: texts(&["read"]),
    };
    let mut meta = metadata();
    meta.scopes_supported = texts(&["write"]);
    let meta = found(Discovery::for_resource(&base, Some(resource)).answered(Some(meta)));
    assert_eq!(meta.scopes_supported, texts(&["write"]));
}

#[test]
fn discovery_falls_back_to_the_conventional_layout() {
    let base = parsed("https://mcp.example/mcp");
    let discovery = Discovery::for_resource(&base, None);
    let meta = found(next(discovery.answered(None)).answered(None));
    assert_eq!(
        meta.authorization_endpoint.as_deref(),
        Some("https://mcp.example/authorize")
    );
    assert_eq!(meta.token_endpoint.as_deref(), Some("https://mcp.example/token"));
    assert_eq!(meta.registration_endpoint.as_deref(), Some("https://mcp.example/register"));
    assert!(meta.scopes_supported.is_empty());
}

#[test]
fn plans_prefer_the_configuration() {
    let mut config = config();
    config.token_endpoint = Some("https://other.example/token".to_string());
    config.client_secret = Some("secret".to_string());
    let mut meta = metadata();
    meta.scopes_supported = texts(&["mcp"]);
    let made = plan(Some(&config), meta, "https://mcp.example/mcp").expect("plan");
    assert_eq!(made.authorization_endpoint, "https://auth.example/authorize");
    assert_eq!(made.token_endpoint, "https://other.example/token");
    assert_eq!(made.registration_endpoint.as_deref(), Some("https://auth.example/register"));
    assert_eq!(made.scope.as_deref(), Some("mcp"));
    assert_eq!(made.client_secret.as_deref(), Some("secret"));
    assert_eq!(made.server_url, "https://mcp.example/mcp");
}

#[test]
fn plans_need_both_endpoints() {
    let mut meta = metadata();
    meta.authorization_endpoint = None;
    meta.token_endpoint = None;
    let error = plan(None, meta, "https://mcp.example").expect_err("no endpoint");
    assert!(matches!(error, McpError::NoAuthorizationEndpoint));
    assert_eq!(
        error.message(),
        "Authorization server did not advertise an authorization_endpoint"
    );
    let mut meta = metadata();
    meta.token_endpoint = None;
    let error = plan(None, meta, "https://mcp.example").expect_err("no endpoint");
    assert!(matches!(error, McpError::NoTokenEndpoint));
    assert_eq!(
        error.message(),
        "Authorization server did not advertise a token_endpoint"
    );
}

#[test]
fn callbacks_stay_on_this_machine() {
    let target = |uri: &str| {
        let mut config = config();
        config.redirect_uri = Some(uri.to_string());
        callback_target(Some(&config), Some(&tokens()))
    };
    match target("http://localhost:1455/callback").expect("target") {
        CallbackTarget::Fixed { host, port, redirect_uri } => {
            assert_eq!(host, "localhost");
            assert_eq!(port, 1455);
            assert_eq!(redirect_uri, "http://localhost:1455/callback");
        }
        CallbackTarget::Ephemeral => panic!("the redirect URI is fixed"),
    }
    for uri in [
        "https://127.0.0.1:1455/callback",
        "http://example.com:1455/callback",
        "http://127.0.0.1:1455/callback?x=1",
        "http://127.0.0.1:1455/callback#x",
        "mailto:someone@example.com",
    ] {
        let error = target(uri).expect_err("refused");
        assert!(matches!(error, McpError::RedirectNotLoopback), "{uri}");
        assert_eq!(
            error.message(),
            "OAuth redirect_uri must be a query-free loopback HTTP URL"
        );
    }
    let error = target("http://127.0.0.1/callback").expect_err("no port");
    assert!(matches!(error, McpError::RedirectWithoutPort));
    assert_eq!(error.message(), "OAuth redirect_uri must include a port");
    let error = target("::").expect_err("no URL");
    assert!(matches!(error, McpError::InvalidRedirectUri { .. }));
    assert_eq!(error.message(), "Invalid OAuth redirect_uri");
}

#[test]
fn callbacks_default_to_what_was_saved() {
    match callback_target(Some(&config()), Some(&tokens())).expect("target") {
        CallbackTarget::Fixed { host, port, .. } => {
            assert_eq!(host, "127.0.0.1");
            assert_eq!(port, 7777);
        }
        CallbackTarget::Ephemeral => panic!("a redirect URI was saved"),
    }
    let target = callback_target(None, None).expect("target");
    assert!(matches!(target, CallbackTarget::Ephemeral));
    assert_eq!(ephemeral_redirect_uri(40123), "http://127.0.0.1:40123/callback");
    assert_eq!(ephemeral_redirect_uri(0), "http://127.0.0.1:0/callback");
}

#[test]
fn kept_clients_belong_to_their_redirect_uri() {
    let saved = tokens();
    let uri = "http://127.0.0.1:7777/callback";
    assert_eq!(known_client_id(None, Some(&saved), uri).as_deref(), Some("client"));
    assert_eq!(known_client_id(None, Some(&saved), "http://127.0.0.1:7778/callback"), None);
    assert_eq!(known_client_id(None, None, uri), None);
    let mut config = config();
    config.client_id = Some("configured".to_string());
    assert_eq!(known_client_id(Some(&config), Some(&saved), "x").as_deref(), Some("configured"));
    config.client_id = Some(String::new());
    assert_eq!(known_client_id(Some(&config), Some(&saved), uri), None);
}

fn made_plan() -> Plan {
    plan(None, metadata(), "https://mcp.example/mcp").expect("plan")
}

#[test]
fn known_clients_are_not_registered_again() {
    let uri = "http://127.0.0.1:7777/callback";
    match made_plan().choose_client(None, Some(&tokens()), uri).expect("step") {
        ClientStep::Ready(grant) => {
            assert_eq!(grant.client_id, "client");
            assert_eq!(grant.redirect_uri, uri);
            assert_eq!(grant.token_endpoint, "https://auth.example/token");
            assert_eq!(grant.server_url, "https://mcp.example/mcp");
        }
        ClientStep::Register(..) => panic!("the client is known"),
    }
}

#[test]
fn unknown_clients_are_registered() {
    let uri = "http://127.0.0.1:9/callback";
    match made_plan().choose_client(None, None, uri).expect("step") {
        ClientStep::Register(plan, request) => {
            assert_eq!(request.endpoint, "https://auth.example/register");
            assert_eq!(request.client_name, "jcode");
            assert_eq!(request.redirect_uris, texts(&[uri]));
            assert_eq!(request.grant_types, texts(&["authorization_code", "refresh_token"]));
            assert_eq!(request.response_types, texts(&["code"]));
            assert_eq!(request.token_endpoint_auth_method, "none");
            assert_eq!(request.scope, "");
            let grant = plan.with_client(uri.to_string(), "new".to_string());
            assert_eq!(grant.client_id, "new");
            assert_eq!(grant.redirect_uri, uri);
        }
        ClientStep::Ready(_) => panic!("no client is known"),
    }
    let mut plan = made_plan();
    plan.registration_endpoint = None;
    let error = plan.choose_client(None, None, uri).expect_err("no endpoint");
    assert!(matches!(error, McpError::NoRegistrationEndpoint));
    assert_eq!(
        error.message(),
        "Server requires OAuth but supports no dynamic client registration"
    );
}

#[test]
fn refused_registrations_are_explained() {
    assert!(registration_outcome(201, "").is_ok());
    let error = registration_outcome(403, "no").expect_err("refused");
    assert!(matches!(error, McpError::RegistrationForbidden));
    assert_eq!(
        error.message(),
        "Dynamic client registration rejected (403): the OAuth provider does not allow this MCP client; Figma remote MCP currently requires an approved client integration"
    );
    let error = registration_outcome(400, &"\u{e9}".repeat(300)).expect_err("refused");
    assert_eq!(
        error.message(),
        format!("Dynamic client registration rejected (400): {}", "\u{e9}".repeat(200))
    );
}

#[test]
fn authorization_urls_carry_their_parameters() {
    let grant = grant();
    let list = grant.authorization_pairs("challenge", "state", None);
    assert_eq!(
        pairs(&list),
        vec![
            ("response_type", "code"),
            ("client_id", "client"),
            ("redirect_uri", "http://127.0.0.1:7777/callback"),
            ("code_challenge", "challenge"),
            ("code_challenge_method", "S256"),
            ("state", "state"),
            ("resource", "https://mcp.example/mcp"),
            ("access_type", "offline"),
            ("scope", "mcp offline"),
        ]
    );
    assert!(grant.has_room("challenge", "state", None));
    assert_eq!(
        grant.authorization_url("challenge", "state", None).expect("URL"),
        "https://auth.example/authorize?tenant=a&response_type=code&client_id=client\
         &redirect_uri=http%3A%2F%2F127.0.0.1%3A7777%2Fcallback&code_challenge=challenge\
         &code_challenge_method=S256&state=state&resource=https%3A%2F%2Fmcp.example%2Fmcp\
         &access_type=offline&scope=mcp+offline"
    );
}

#[test]
fn consent_is_asked_for_where_refresh_is_impossible() {
    let mut grant = grant();
    grant.scope = None;
    let mut saved = tokens();
    let list = grant.authorization_pairs("c", "s", Some(&saved));
    assert!(!pairs(&list).contains(&("prompt", "consent")));
    saved.refresh_token = None;
    let list = grant.authorization_pairs("c", "s", Some(&saved));
    assert_eq!(pairs(&list).last(), Some(&("prompt", "consent")));
}

#[test]
fn authorization_endpoints_have_to_be_urls() {
    let mut grant = grant();
    grant.authorization_endpoint = "nowhere".to_string();
    let error = grant.authorization_url("c", "s", None).expect_err("no URL");
    assert!(matches!(error, McpError::InvalidAuthorizationEndpoint { .. }));
    assert_eq!(error.message(), "");
    grant.authorization_endpoint = "x".repeat(MAX_URL_CHARS);
    assert!(!grant.has_room("c", "s", None));
    let endpoint = "x".repeat(MAX_URL_CHARS);
    assert!(can_append_pairs(&endpoint, &Vec::new()));
    assert!(!can_append_pairs(&endpoint, &vec![("a".to_string(), String::new())]));
    let endpoint = "x".repeat(MAX_URL_CHARS - 4);
    assert!(can_append_pairs(&endpoint, &vec![("a".to_string(), "bc".to_string())]));
    assert!(!can_append_pairs(&endpoint, &vec![("a".to_string(), "bcd".to_string())]));
    assert!(!parsed("https://mcp.example/").has_room_for(MAX_URL_CHARS));
}

#[test]
fn exchanges_name_the_same_client() {
    let request = grant().exchange("code", "verifier");
    assert_eq!(request.endpoint, "https://auth.example/token");
    assert_eq!(
        pairs(&request.params),
        vec![
            ("grant_type", "authorization_code"),
            ("code", "code"),
            ("redirect_uri", "http://127.0.0.1:7777/callback"),
            ("client_id", "client"),
            ("code_verifier", "verifier"),
            ("resource", "https://mcp.example/mcp"),
            ("scope", "mcp offline"),
            ("client_secret", "secret"),
        ]
    );
    let mut grant = grant();
    grant.scope = None;
    grant.client_secret = None;
    assert_eq!(grant.exchange("code", "verifier").params.len(), 6);
}

#[test]
fn refused_exchanges_are_told() {
    assert!(exchange_outcome(200).is_ok());
    assert!(exchange_outcome(299).is_ok());
    for status in [199_u16, 300, 400] {
        let error = exchange_outcome(status).expect_err("refused");
        assert_eq!(error.message(), format!("Token exchange failed ({status})"));
    }
}

fn response(expires_in: Option<i64>) -> TokenResponse {
    TokenResponse {
        access_token: "new".to_string(),
        refresh_token: None,
        expires_in,
    }
}

#[test]
fn exchanged_tokens_remember_their_client() {
    let made = exchanged_at(
        response(Some(3600)),
        1_000,
        "id".to_string(),
        "https://t".to_string(),
        "http://r".to_string(),
    );
    assert_eq!(made.access_token, "new");
    assert_eq!(made.refresh_token, None);
    assert_eq!(made.expires_at, 4_600);
    assert_eq!(made.client_id.as_deref(), Some("id"));
    assert_eq!(made.token_endpoint.as_deref(), Some("https://t"));
    assert_eq!(made.redirect_uri.as_deref(), Some("http://r"));
    let made = grant().into_tokens_at(response(Some(5)), 7);
    assert_eq!(made.expires_at, 12);
    assert_eq!(made.redirect_uri.as_deref(), Some("http://127.0.0.1:7777/callback"));
    let before = chrono::Utc::now().timestamp();
    let made = grant().into_tokens(response(Some(3600)));
    let after = chrono::Utc::now().timestamp();
    assert!(before + 3600 <= made.expires_at && made.expires_at <= after + 3600);
    assert!(!made.is_expired(), "a 3600s token must not read as expired");
    assert_eq!(made.client_id.as_deref(), Some("client"));
    let made = exchanged_now(response(None), String::new(), String::new(), String::new());
    assert_eq!(made.expires_at, 0);
}

#[test]
fn refreshed_tokens_keep_what_is_not_replaced() {
    let made = refreshed_at(&tokens(), response(Some(10)), 50);
    assert_eq!(made.access_token, "new");
    assert_eq!(made.refresh_token.as_deref(), Some("refresh"));
    assert_eq!(made.expires_at, 60);
    assert_eq!(made.client_id.as_deref(), Some("client"));
    assert_eq!(made.token_endpoint.as_deref(), Some("https://auth.example/token"));
    assert_eq!(made.redirect_uri.as_deref(), Some("http://127.0.0.1:7777/callback"));
    let mut replaced = response(None);
    replaced.refresh_token = Some("other".to_string());
    let made = refresh_outcome_now(&tokens(), 200, Some(replaced)).expect("refreshed");
    assert_eq!(made.refresh_token.as_deref(), Some("other"));
    assert_eq!(made.expires_at, 0);
}

#[test]
fn refused_refreshes_give_nothing() {
    let made = refresh_outcome(&tokens(), 200, Some(response(Some(10))), 50).expect("refreshed");
    assert_eq!(made.access_token, "new");
    assert_eq!(made.expires_at, 60);
    assert!(refresh_outcome(&tokens(), 400, Some(response(Some(10))), 50).is_none());
    assert!(refresh_outcome(&tokens(), 200, None, 50).is_none());
    assert!(refresh_outcome_now(&tokens(), 300, Some(response(None))).is_none());
}

#[test]
fn lifetimes_have_to_be_countable() {
    assert!(response(None).is_countable());
    assert!(response(Some(i64::MIN)).is_countable());
    assert!(response(Some(i64::MAX - LAST_SECOND)).is_countable());
    assert!(!response(Some(i64::MAX - LAST_SECOND + 1)).is_countable());
}

#[test]
fn refresh_needs_everything_it_sends() {
    let mut config = config();
    let request = refresh_request(&tokens(), Some(&config)).expect("request");
    assert_eq!(request.endpoint, "https://auth.example/token");
    assert_eq!(
        pairs(&request.params),
        vec![
            ("grant_type", "refresh_token"),
            ("refresh_token", "refresh"),
            ("client_id", "client"),
        ]
    );
    config.client_secret = Some("secret".to_string());
    let request = refresh_request(&tokens(), Some(&config)).expect("request");
    assert_eq!(pairs(&request.params).last(), Some(&("client_secret", "secret")));

    let mut saved = tokens();
    saved.refresh_token = None;
    assert!(refresh_request(&saved, None).is_none());
    let mut saved = tokens();
    saved.token_endpoint = None;
    assert!(refresh_request(&saved, None).is_none());
    let mut saved = tokens();
    saved.client_id = None;
    assert!(refresh_request(&saved, None).is_none());
}

#[test]
fn automated_runs_fetch_the_url() {
    assert_eq!(presentation(true, true), Presentation::Fetch);
    assert_eq!(presentation(true, false), Presentation::Fetch);
    assert_eq!(presentation(false, true), Presentation::PrintOnly);
    assert_eq!(presentation(false, false), Presentation::Browser);
}

#[test]
fn credentials_live_under_the_home_that_is_set() {
    let path = auth_dir(true, true);
    assert_eq!(path.base, AuthBase::JcodeHome);
    assert_eq!(path.components, texts(&["mcp-auth"]));
    let path = token_path(false, true, "my server/1");
    assert_eq!(path.base, AuthBase::UserHome);
    assert_eq!(path.components, texts(&[".jcode", "mcp-auth", "my_server_1.json"]));
    let path = interactive_auth_cooldown_path(false, false, "\u{e9}-x");
    assert_eq!(path.base, AuthBase::CurrentDir);
    assert_eq!(path.components, texts(&[".jcode", "mcp-auth", "__x.prompt"]));
}

#[test]
fn servers_share_a_file_only_by_their_separators() {
    let file = |name: &str| token_path(true, true, name).components.pop().unwrap();
    assert_eq!(file("a b"), file("a-b"));
    assert_ne!(file("a"), file("b"));
    assert_ne!(file("a"), file("a_"));
    assert_eq!(file("../../etc"), "______etc.json");
    let marker = interactive_auth_cooldown_path(true, true, "a.json").components.pop().unwrap();
    assert_eq!(marker, "a_json.prompt");
    assert_ne!(marker, file("a.json"));
}
