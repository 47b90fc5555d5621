//! The choices of the authorization code flow: which endpoints, scope, redirect
//! URI and client it uses.

use crate::decimal::{numeral, write_decimal};
use crate::error::{quote_detail, quoted_detail, McpError};
use crate::oauth::discovery::{AuthServer, AuthServerMetadata};
use crate::oauth::scope::{requested_scope, scope_request};
use crate::oauth::tokens::{McpOAuthTokens, Tokens};
use crate::protocol::{McpOAuthConfig, OAuthConfig};
use crate::text::{copy_text, join_strings, join_text, same_text};
use crate::transport::{is_success, success};
use crate::web_url::{url_parts, ParsedUrl, UrlComponents, UrlParts};
use vstd::prelude::*;

verus! {

/// The value that a configuration gives, else the one that was discovered.
pub open spec fn preferred(configured: Option<Seq<char>>, discovered: Option<Seq<char>>) -> Option<
    Seq<char>,
> {
    if configured is Some {
        configured
    } else {
        discovered
    }
}

/// The authorization endpoint in force.
pub open spec fn authorization_endpoint_for(config: Option<OAuthConfig>, meta: AuthServer) ->
    Option<Seq<char>> {
    match config {
        Some(config) => preferred(config.authorization_endpoint, meta.authorization_endpoint),
        None => meta.authorization_endpoint,
    }
}

/// The token endpoint in force.
pub open spec fn token_endpoint_for(config: Option<OAuthConfig>, meta: AuthServer) -> Option<
    Seq<char>,
> {
    match config {
        Some(config) => preferred(config.token_endpoint, meta.token_endpoint),
        None => meta.token_endpoint,
    }
}

/// The client secret of a configuration.
pub open spec fn secret_for(config: Option<OAuthConfig>) -> Option<Seq<char>> {
    match config {
        Some(config) => config.client_secret,
        None => None,
    }
}

/// The client secret of a configuration.
pub fn client_secret(config: Option<&McpOAuthConfig>) -> (r: Option<String>)
    ensures
        r.deep_view() == secret_for(config.deep_view()),
{
    match config {
        Some(config) => copy_text(&config.client_secret),
        None => None,
    }
}

/// The endpoints that an authorization needs.
#[derive(Debug)]
pub struct Endpoints {
    pub authorization: String,
    pub token: String,
}

/// The endpoints in force: those of the configuration, else those discovered.
pub fn endpoints(config: Option<&McpOAuthConfig>, meta: &AuthServerMetadata) -> (r: Result<
    Endpoints,
    McpError,
>)
    ensures
        ({
            let authorization = authorization_endpoint_for(config.deep_view(), meta.deep_view());
            let token = token_endpoint_for(config.deep_view(), meta.deep_view());
            match r {
                Ok(found) => authorization == Some(found.authorization@) && token == Some(
                    found.token@,
                ),
                Err(error) => if authorization is None {
                    error is NoAuthorizationEndpoint
                } else {
                    token is None && error is NoTokenEndpoint
                },
            }
        }),
{
    let (configured_authorization, configured_token) = match config {
        Some(config) => (
            copy_text(&config.authorization_endpoint),
            copy_text(&config.token_endpoint),
        ),
        None => (None, None),
    };
    let authorization = match configured_authorization {
        Some(endpoint) => endpoint,
        None => match copy_text(&meta.authorization_endpoint) {
            Some(endpoint) => endpoint,
            None => {
                return Err(McpError::NoAuthorizationEndpoint);
            },
        },
    };
    let token = match configured_token {
        Some(endpoint) => endpoint,
        None => match copy_text(&meta.token_endpoint) {
            Some(endpoint) => endpoint,
            None => {
                return Err(McpError::NoTokenEndpoint);
            },
        },
    };
    Ok(Endpoints { authorization, token })
}

/// The scope to request: what the configuration lists, else what is advertised.
pub open spec fn scope_for(config: Option<OAuthConfig>, supported: Seq<Seq<char>>) -> Option<
    Seq<char>,
> {
    if config is Some && config->0.scopes.len() > 0 {
        Some(join_text(config->0.scopes, " "@))
    } else {
        scope_request(supported)
    }
}

/// The scope to request. A configured scope list is required for providers that
/// do not expose scopes through MCP metadata; otherwise only what is advertised is
/// requested.
pub fn scope_to_request(config: Option<&McpOAuthConfig>, supported: &[String]) -> (r: Option<
    String,
>)
    ensures
        r.deep_view() == scope_for(config.deep_view(), supported.deep_view()),
{
    if let Some(config) = config {
        if config.scopes.len() > 0 {
            return Some(join_strings(config.scopes.as_slice(), " "));
        }
    }
    requested_scope(supported)
}

/// A redirect URI that only this machine can receive: plain HTTP to a loopback
/// name, without query and fragment.
pub open spec fn loopback(parts: UrlParts) -> bool {
    &&& parts.scheme == "http"@
    &&& parts.host == Some("127.0.0.1"@) || parts.host == Some("localhost"@)
    &&& parts.query is None
    &&& parts.fragment is None
}

/// Where the callback of an authorization is received.
#[derive(Debug)]
pub enum CallbackTarget {
    /// At a fixed host and port, under a fixed redirect URI.
    Fixed { host: String, port: u16, redirect_uri: String },
    /// At any free port of this machine.
    Ephemeral,
}

/// The host and port to listen on for a redirect URI with the given components.
pub fn callback_address(parts: &UrlComponents) -> (r: Result<(String, u16), McpError>)
    ensures
        match r {
            Ok((host, port)) => loopback(parts.deep_view()) && parts.host.deep_view() == Some(host@)
                && parts.port == Some(port),
            Err(error) => if !loopback(parts.deep_view()) {
                error is RedirectNotLoopback
            } else {
                parts.port is None && error is RedirectWithoutPort
            },
        },
{
    let host = match copy_text(&parts.host) {
        Some(host) => host,
        None => {
            return Err(McpError::RedirectNotLoopback);
        },
    };
    if !same_text(parts.scheme.as_str(), "http") || !(same_text(host.as_str(), "127.0.0.1")
        || same_text(host.as_str(), "localhost")) || parts.query.is_some()
        || parts.fragment.is_some() {
        return Err(McpError::RedirectNotLoopback);
    }
    match parts.port {
        Some(port) => Ok((host, port)),
        None => Err(McpError::RedirectWithoutPort),
    }
}

/// The redirect URI that is asked for: that of the configuration, else the one
/// that was saved with the credentials.
pub open spec fn wanted_redirect(config: Option<OAuthConfig>, saved: Option<Tokens>) -> Option<
    Seq<char>,
> {
    preferred(
        match config {
            Some(config) => config.redirect_uri,
            None => None,
        },
        match saved {
            Some(tokens) => tokens.redirect_uri,
            None => None,
        },
    )
}

/// Where to receive the callback. A fixed URI is useful for OAuth web clients that
/// require an exact redirect registration.
pub fn callback_target(config: Option<&McpOAuthConfig>, saved: Option<&McpOAuthTokens>) -> (r:
    Result<CallbackTarget, McpError>)
    ensures
        match wanted_redirect(config.deep_view(), saved.deep_view()) {
            None => r matches Ok(target) && target is Ephemeral,
            Some(uri) => match url_parts(uri) {
                None => r matches Err(error) && error is InvalidRedirectUri,
                Some(parts) => match r {
                    Ok(target) => {
                        &&& loopback(parts)
                        &&& target matches CallbackTarget::Fixed { host, port, redirect_uri }
                        &&& parts.host == Some(host@)
                        &&& parts.port == Some(port)
                        &&& redirect_uri@ == uri
                    },
                    Err(error) => if !loopback(parts) {
                        error is RedirectNotLoopback
                    } else {
                        parts.port is None && error is RedirectWithoutPort
                    },
                },
            },
        },
{
    let configured = match config {
        Some(config) => copy_text(&config.redirect_uri),
        None => None,
    };
    let wanted = match configured {
        Some(uri) => Some(uri),
        None => match saved {
            Some(tokens) => copy_text(&tokens.redirect_uri),
            None => None,
        },
    };
    let redirect_uri = match wanted {
        Some(uri) => uri,
        None => {
            return Ok(CallbackTarget::Ephemeral);
        },
    };
    let url = match ParsedUrl::parse(redirect_uri.as_str()) {
        Ok(url) => url,
        Err(cause) => {
            return Err(McpError::InvalidRedirectUri { cause });
        },
    };
    match callback_address(url.components()) {
        Ok((host, port)) => Ok(CallbackTarget::Fixed { host, port, redirect_uri }),
        Err(error) => Err(error),
    }
}

/// The redirect URI for a callback that is received at a free port.
pub open spec fn ephemeral_uri(port: u16) -> Seq<char> {
    "http://127.0.0.1:"@ + numeral(port as nat) + "/callback"@
}

/// The redirect URI for a callback that is received at a free port.
pub fn ephemeral_redirect_uri(port: u16) -> (r: String)
    ensures
        r@ == ephemeral_uri(port),
{
    let mut r = "http://127.0.0.1:".to_owned();
    r.append(write_decimal(port as u64).as_str());
    r.append("/callback");
    r
}

/// The client id that is known already: that of the configuration, else the saved
/// one, if it was registered for the same redirect URI. An empty id counts as
/// none, and an empty id in the configuration keeps the saved one out.
pub open spec fn known_client(
    config: Option<OAuthConfig>,
    saved: Option<Tokens>,
    redirect_uri: Seq<char>,
) -> Option<Seq<char>> {
    let id = if config is Some && config->0.client_id is Some {
        config->0.client_id
    } else if saved is Some && saved->0.redirect_uri == Some(redirect_uri) {
        saved->0.client_id
    } else {
        None
    };
    if id is Some && id->0.len() > 0 {
        id
    } else {
        None
    }
}

/// The client id that is known already; `None` where a client has to be
/// registered.
///
/// A dynamically registered client is bound to the redirect URI used during
/// registration, so it is only reused together with that URI.
pub fn known_client_id(
    config: Option<&McpOAuthConfig>,
    saved: Option<&McpOAuthTokens>,
    redirect_uri: &str,
) -> (r: Option<String>)
    ensures
        r.deep_view() == known_client(config.deep_view(), saved.deep_view(), redirect_uri@),
{
    let configured = match config {
        Some(config) => copy_text(&config.client_id),
        None => None,
    };
    let id = match configured {
        Some(id) => Some(id),
        None => match saved {
            Some(tokens) => match &tokens.redirect_uri {
                Some(registered) => if same_text(registered.as_str(), redirect_uri) {
                    copy_text(&tokens.client_id)
                } else {
                    None
                },
                None => None,
            },
            None => None,
        },
    };
    match id {
        Some(id) => if id.as_str().is_empty() {
            None
        } else {
            Some(id)
        },
        None => None,
    }
}

/// A request to register a client.
#[derive(Debug)]
pub struct Registration {
    pub endpoint: String,
    pub client_name: String,
    pub redirect_uris: Vec<String>,
    pub grant_types: Vec<String>,
    pub response_types: Vec<String>,
    pub token_endpoint_auth_method: String,
    pub scope: String,
}

/// `Registration` as a mathematical value.
#[verifier::ext_equal]
pub struct RegistrationRequest {
    pub endpoint: Seq<char>,
    pub client_name: Seq<char>,
    pub redirect_uris: Seq<Seq<char>>,
    pub grant_types: Seq<Seq<char>>,
    pub response_types: Seq<Seq<char>>,
    pub token_endpoint_auth_method: Seq<char>,
    pub scope: Seq<char>,
}

impl DeepView for Registration {
    type V = RegistrationRequest;

    open spec fn deep_view(&self) -> RegistrationRequest {
        RegistrationRequest {
            endpoint: self.endpoint@,
            client_name: self.client_name@,
            redirect_uris: self.redirect_uris.deep_view(),
            grant_types: self.grant_types.deep_view(),
            response_types: self.response_types.deep_view(),
            token_endpoint_auth_method: self.token_endpoint_auth_method@,
            scope: self.scope@,
        }
    }
}

/// The request that registers a client for `redirect_uri` and `scope`.
pub open spec fn registration_request(
    endpoint: Seq<char>,
    redirect_uri: Seq<char>,
    scope: Option<Seq<char>>,
) -> RegistrationRequest {
    RegistrationRequest {
        endpoint,
        client_name: "jcode"@,
        redirect_uris: seq![redirect_uri],
        grant_types: seq!["authorization_code"@, "refresh_token"@],
        response_types: seq!["code"@],
        token_endpoint_auth_method: "none"@,
        scope: match scope {
            Some(scope) => scope,
            None => Seq::empty(),
        },
    }
}

/// The request that registers a client for `redirect_uri` and `scope`.
pub fn registration(
    registration_endpoint: &Option<String>,
    redirect_uri: &str,
    scope: &Option<String>,
) -> (r: Result<Registration, McpError>)
    ensures
        match *registration_endpoint {
            Some(endpoint) => r matches Ok(request) && request.deep_view() == registration_request(
                endpoint@,
                redirect_uri@,
                scope.deep_view(),
            ),
            None => r matches Err(error) && error is NoRegistrationEndpoint,
        },
{
    let endpoint = match copy_text(registration_endpoint) {
        Some(endpoint) => endpoint,
        None => {
            return Err(McpError::NoRegistrationEndpoint);
        },
    };
    let mut redirect_uris: Vec<String> = Vec::new();
    redirect_uris.push(redirect_uri.to_owned());
    let mut grant_types: Vec<String> = Vec::new();
    grant_types.push("authorization_code".to_owned());
    grant_types.push("refresh_token".to_owned());
    let mut response_types: Vec<String> = Vec::new();
    response_types.push("code".to_owned());
    let scope = match copy_text(scope) {
        Some(scope) => scope,
        None => String::new(),
    };
    proof {
        assert(redirect_uris.deep_view() =~= seq![redirect_uri@]);
        assert(grant_types.deep_view() =~= seq!["authorization_code"@, "refresh_token"@]);
        assert(response_types.deep_view() =~= seq!["code"@]);
    }
    Ok(
        Registration {
            endpoint,
            client_name: "jcode".to_owned(),
            redirect_uris,
            grant_types,
            response_types,
            token_endpoint_auth_method: "none".to_owned(),
            scope,
        },
    )
}

/// What comes of the answer to a registration: an error where the provider
/// refused it.
pub fn registration_outcome(status: u16, detail: &str) -> (r: Result<(), McpError>)
    ensures
        match r {
            Ok(_) => success(status),
            Err(error) => {
                &&& !success(status)
                &&& status == 403 ==> error is RegistrationForbidden
                &&& status != 403 ==> {
                    &&& error matches McpError::RegistrationRejected { status: told, detail: quoted }
                    &&& told == status
                    &&& quoted@ == quoted_detail(detail@)
                }
            },
        },
{
    if is_success(status) {
        Ok(())
    } else if status == 403 {
        Err(McpError::RegistrationForbidden)
    } else {
        Err(McpError::RegistrationRejected { status, detail: quote_detail(detail) })
    }
}

/// What is configured comes before what was discovered, and what is not configured is
/// as it was discovered; each endpoint by itself.
pub proof fn configuration_comes_first(config: OAuthConfig, meta: AuthServer)
    ensures
        config.authorization_endpoint is Some ==> authorization_endpoint_for(Some(config), meta)
            == config.authorization_endpoint,
        config.authorization_endpoint is None ==> authorization_endpoint_for(Some(config), meta)
            == meta.authorization_endpoint,
        authorization_endpoint_for(None, meta) == meta.authorization_endpoint,
        config.token_endpoint is Some ==> token_endpoint_for(Some(config), meta)
            == config.token_endpoint,
        config.token_endpoint is None ==> token_endpoint_for(Some(config), meta)
            == meta.token_endpoint,
        token_endpoint_for(None, meta) == meta.token_endpoint,
        secret_for(Some(config)) == config.client_secret,
        secret_for(None) is None,
{
}

/// Configured scopes are requested as they are listed, whatever is advertised; where
/// none is configured the advertised ones are.
pub proof fn configured_scopes_come_first(config: OAuthConfig, supported: Seq<Seq<char>>)
    ensures
        config.scopes.len() > 0 ==> scope_for(Some(config), supported) == Some(
            join_text(config.scopes, " "@),
        ),
        config.scopes.len() == 0 ==> scope_for(Some(config), supported) == scope_request(supported),
        scope_for(None, supported) == scope_request(supported),
{
}

/// A redirect URI leads back to this machine exactly where it is plain HTTP to one of
/// two names, without a query and without a fragment, not even empty ones.
pub proof fn loopback_addresses_are_plain(parts: UrlParts)
    ensures
        loopback(parts) <==> parts.scheme == "http"@ && parts.host is Some && (parts.host->0
            == "127.0.0.1"@ || parts.host->0 == "localhost"@) && parts.query is None
            && parts.fragment is None,
{
}

/// The redirect URI is the configured one, and the saved one only where none is
/// configured.
pub proof fn configured_redirects_come_first(config: OAuthConfig, saved: Tokens)
    ensures
        config.redirect_uri is Some ==> wanted_redirect(Some(config), Some(saved))
            == config.redirect_uri && wanted_redirect(Some(config), None) == config.redirect_uri,
        config.redirect_uri is None ==> wanted_redirect(Some(config), Some(saved))
            == saved.redirect_uri && wanted_redirect(Some(config), None) is None,
        wanted_redirect(None, Some(saved)) == saved.redirect_uri,
        wanted_redirect(None, None) is None,
{
}

/// The redirect URI of a free port is the loopback address with that port.
pub proof fn free_ports_are_redirected_to(port: u16)
    ensures
        ephemeral_uri(port) == "http://127.0.0.1:"@ + (numeral(port as nat) + "/callback"@),
{
    assert(ephemeral_uri(port) =~= "http://127.0.0.1:"@ + (numeral(port as nat) + "/callback"@));
}

/// A configured client is used whatever is saved; a saved one only where none is
/// configured, and only with the redirect URI that was saved with it; an empty id is
/// none.
pub proof fn clients_are_chosen_in_order(
    config: OAuthConfig,
    saved: Tokens,
    redirect_uri: Seq<char>,
)
    ensures
        config.client_id is Some && config.client_id->0.len() > 0 ==> known_client(
            Some(config),
            Some(saved),
            redirect_uri,
        ) == config.client_id && known_client(Some(config), None, redirect_uri)
            == config.client_id,
        config.client_id is Some && config.client_id->0.len() == 0 ==> known_client(
            Some(config),
            Some(saved),
            redirect_uri,
        ) is None,
        config.client_id is None ==> known_client(Some(config), Some(saved), redirect_uri)
            == known_client(None, Some(saved), redirect_uri),
        saved.redirect_uri == Some(redirect_uri) && saved.client_id is Some
            && saved.client_id->0.len() > 0 ==> known_client(None, Some(saved), redirect_uri)
            == saved.client_id,
        saved.redirect_uri != Some(redirect_uri) || saved.client_id is None
            || saved.client_id->0.len() == 0 ==> known_client(None, Some(saved), redirect_uri)
            is None,
        known_client(None, None, redirect_uri) is None,
        config.client_id is None ==> known_client(Some(config), None, redirect_uri) is None,
{
}

/// A registration names the one redirect URI and the scope, which is empty where there
/// is none, and is otherwise always the same.
pub proof fn registrations_name_redirect_and_scope(
    endpoint: Seq<char>,
    redirect_uri: Seq<char>,
    scope: Option<Seq<char>>,
)
    ensures
        ({
            let request = registration_request(endpoint, redirect_uri, scope);
            &&& request.endpoint == endpoint
            &&& request.redirect_uris.len() == 1
            &&& request.redirect_uris[0] == redirect_uri
            &&& scope is Some ==> request.scope == scope->0
            &&& scope is None ==> request.scope.len() == 0
            &&& request.client_name == "jcode"@
            &&& request.grant_types.len() == 2
            &&& request.grant_types[0] == "authorization_code"@
            &&& request.grant_types[1] == "refresh_token"@
            &&& request.response_types.len() == 1
            &&& request.response_types[0] == "code"@
            &&& request.token_endpoint_auth_method == "none"@
        }),
{
}

/// A registration is seen with all that is sent.
pub proof fn registrations_are_seen_whole(request: Registration)
    ensures
        request.deep_view().endpoint == request.endpoint@,
        request.deep_view().client_name == request.client_name@,
        request.deep_view().redirect_uris == request.redirect_uris.deep_view(),
        request.deep_view().grant_types == request.grant_types.deep_view(),
        request.deep_view().response_types == request.response_types.deep_view(),
        request.deep_view().token_endpoint_auth_method == request.token_endpoint_auth_method@,
        request.deep_view().scope == request.scope@,
{
}

} // verus!
