//! The authorization code flow from the discovered endpoints to the tokens, and
//! the refresh of tokens.

use crate::clock::{clock_time, unix_now};
use crate::error::McpError;
use crate::oauth::authorize::{
    authorization_endpoint_for, client_secret, endpoints, known_client, known_client_id,
    registration, registration_request, scope_for, scope_to_request, secret_for,
    token_endpoint_for, wanted_redirect, Registration,
};
use crate::oauth::discovery::{AuthServer, AuthServerMetadata};
use crate::oauth::tokens::{
    exchanged, exchanged_at, exchanged_now, refreshed, refreshed_at, McpOAuthTokens, TokenResponse,
    Tokens,
};
use crate::protocol::{append_pair, McpOAuthConfig, OAuthConfig};
use crate::transport::{is_success, success};
use crate::web_url::{append_pairs, can_append_pairs, pairs_fit, url_parts, url_with_pairs};
use vstd::prelude::*;

verus! {

/// An authorization whose client is not chosen yet.
#[derive(Debug)]
pub struct Plan {
    pub authorization_endpoint: String,
    pub token_endpoint: String,
    pub registration_endpoint: Option<String>,
    pub scope: Option<String>,
    pub client_secret: Option<String>,
    pub server_url: String,
}

/// Whether `plan` uses what `config` says, and `meta` where it says nothing.
pub open spec fn plans(
    plan: Plan,
    config: Option<OAuthConfig>,
    meta: AuthServer,
    server_url: Seq<char>,
) -> bool {
    &&& authorization_endpoint_for(config, meta) == Some(plan.authorization_endpoint@)
    &&& token_endpoint_for(config, meta) == Some(plan.token_endpoint@)
    &&& plan.registration_endpoint.deep_view() == meta.registration_endpoint
    &&& plan.scope.deep_view() == scope_for(config, meta.scopes_supported)
    &&& plan.client_secret.deep_view() == secret_for(config)
    &&& plan.server_url@ == server_url
}

/// Plans the authorization of a client at `server_url`.
pub fn plan(config: Option<&McpOAuthConfig>, meta: AuthServerMetadata, server_url: &str) -> (r:
    Result<Plan, McpError>)
    ensures
        match r {
            Ok(plan) => plans(plan, config.deep_view(), meta.deep_view(), server_url@),
            Err(error) => if authorization_endpoint_for(config.deep_view(), meta.deep_view())
                is None {
                error is NoAuthorizationEndpoint
            } else {
                token_endpoint_for(config.deep_view(), meta.deep_view()) is None
                    && error is NoTokenEndpoint
            },
        },
{
    let found = match endpoints(config, &meta) {
        Ok(found) => found,
        Err(error) => {
            return Err(error);
        },
    };
    let scope = scope_to_request(config, meta.scopes_supported.as_slice());
    Ok(
        Plan {
            authorization_endpoint: found.authorization,
            token_endpoint: found.token,
            registration_endpoint: meta.registration_endpoint,
            scope,
            client_secret: client_secret(config),
            server_url: server_url.to_owned(),
        },
    )
}

/// An authorization with everything chosen: what is sent to the authorization
/// endpoint and to the token endpoint, and what is kept, comes from here.
#[derive(Debug)]
pub struct Grant {
    pub authorization_endpoint: String,
    pub token_endpoint: String,
    pub scope: Option<String>,
    pub client_secret: Option<String>,
    pub server_url: String,
    pub redirect_uri: String,
    pub client_id: String,
}

impl Plan {
    /// Whether `grant` is this plan carried out by the given client.
    pub open spec fn leads_to(self, grant: Grant, redirect_uri: Seq<char>, client_id: Seq<char>) ->
        bool {
        &&& grant.authorization_endpoint@ == self.authorization_endpoint@
        &&& grant.token_endpoint@ == self.token_endpoint@
        &&& grant.scope.deep_view() == self.scope.deep_view()
        &&& grant.client_secret.deep_view() == self.client_secret.deep_view()
        &&& grant.server_url@ == self.server_url@
        &&& grant.redirect_uri@ == redirect_uri
        &&& grant.client_id@ == client_id
    }

    /// Carries the plan out with a client.
    pub fn with_client(self, redirect_uri: String, client_id: String) -> (r: Grant)
        ensures
            self.leads_to(r, redirect_uri@, client_id@),
    {
        Grant {
            authorization_endpoint: self.authorization_endpoint,
            token_endpoint: self.token_endpoint,
            scope: self.scope,
            client_secret: self.client_secret,
            server_url: self.server_url,
            redirect_uri,
            client_id,
        }
    }

    /// Carries the plan out with the client that is known already, or tells how to
    /// register one.
    pub fn choose_client(
        self,
        config: Option<&McpOAuthConfig>,
        saved: Option<&McpOAuthTokens>,
        redirect_uri: &str,
    ) -> (r: Result<ClientStep, McpError>)
        ensures
            match known_client(config.deep_view(), saved.deep_view(), redirect_uri@) {
                Some(id) => {
                    &&& r matches Ok(step)
                    &&& step matches ClientStep::Ready(grant)
                    &&& self.leads_to(grant, redirect_uri@, id)
                },
                None => match self.registration_endpoint {
                    Some(endpoint) => {
                        &&& r matches Ok(step)
                        &&& step matches ClientStep::Register(plan, request)
                        &&& plan == self
                        &&& request.deep_view() == registration_request(
                            endpoint@,
                            redirect_uri@,
                            self.scope.deep_view(),
                        )
                    },
                    None => r matches Err(error) && error is NoRegistrationEndpoint,
                },
            },
    {
        match known_client_id(config, saved, redirect_uri) {
            Some(client_id) => Ok(
                ClientStep::Ready(self.with_client(redirect_uri.to_owned(), client_id)),
            ),
            None => {
                match registration(&self.registration_endpoint, redirect_uri, &self.scope) {
                    Ok(request) => Ok(ClientStep::Register(self, request)),
                    Err(error) => Err(error),
                }
            },
        }
    }
}

/// How to get at a client.
#[derive(Debug)]
pub enum ClientStep {
    /// The client is known.
    Ready(Grant),
    /// A client has to be registered first.
    Register(Plan, Registration),
}

/// Whether the provider has to ask for consent again: an earlier grant may
/// otherwise leave out a refresh token.
pub open spec fn needs_consent(saved: Option<Tokens>) -> bool {
    saved is Some && saved->0.refresh_token is None
}

/// The query parameters of an authorization request, in order.
pub open spec fn authorization_parameters(
    grant: Grant,
    code_challenge: Seq<char>,
    state: Seq<char>,
    consent: bool,
) -> Seq<(Seq<char>, Seq<char>)> {
    let always = seq![
        ("response_type"@, "code"@),
        ("client_id"@, grant.client_id@),
        ("redirect_uri"@, grant.redirect_uri@),
        ("code_challenge"@, code_challenge),
        ("code_challenge_method"@, "S256"@),
        ("state"@, state),
        ("resource"@, grant.server_url@),
        ("access_type"@, "offline"@),
    ];
    let asked = if consent {
        always.push(("prompt"@, "consent"@))
    } else {
        always
    };
    match grant.scope {
        Some(scope) => asked.push(("scope"@, scope@)),
        None => asked,
    }
}

/// The form parameters that exchange a code for tokens, in order.
pub open spec fn exchange_parameters(grant: Grant, code: Seq<char>, verifier: Seq<char>) -> Seq<
    (Seq<char>, Seq<char>),
> {
    let always = seq![
        ("grant_type"@, "authorization_code"@),
        ("code"@, code),
        ("redirect_uri"@, grant.redirect_uri@),
        ("client_id"@, grant.client_id@),
        ("code_verifier"@, verifier),
        ("resource"@, grant.server_url@),
    ];
    let scoped = match grant.scope {
        Some(scope) => always.push(("scope"@, scope@)),
        None => always,
    };
    match grant.client_secret {
        Some(secret) => scoped.push(("client_secret"@, secret@)),
        None => scoped,
    }
}

/// A request to a token endpoint: where it is posted, and its form parameters.
#[derive(Debug)]
pub struct TokenRequest {
    pub endpoint: String,
    pub params: Vec<(String, String)>,
}

impl Grant {
    /// The query parameters of the authorization request, in order. Offline access
    /// is requested so that the first interactive login also gives a refresh token.
    pub fn authorization_pairs(
        &self,
        code_challenge: &str,
        state: &str,
        saved: Option<&McpOAuthTokens>,
    ) -> (r: Vec<(String, String)>)
        ensures
            r.deep_view() == authorization_parameters(
                *self,
                code_challenge@,
                state@,
                needs_consent(saved.deep_view()),
            ),
    {
        let mut pairs: Vec<(String, String)> = Vec::new();
        append_pair(&mut pairs, "response_type", "code");
        append_pair(&mut pairs, "client_id", self.client_id.as_str());
        append_pair(&mut pairs, "redirect_uri", self.redirect_uri.as_str());
        append_pair(&mut pairs, "code_challenge", code_challenge);
        append_pair(&mut pairs, "code_challenge_method", "S256");
        append_pair(&mut pairs, "state", state);
        append_pair(&mut pairs, "resource", self.server_url.as_str());
        append_pair(&mut pairs, "access_type", "offline");
        if let Some(tokens) = saved {
            if tokens.refresh_token.is_none() {
                append_pair(&mut pairs, "prompt", "consent");
            }
        }
        if let Some(scope) = &self.scope {
            append_pair(&mut pairs, "scope", scope.as_str());
        }
        assert(pairs.deep_view() =~= authorization_parameters(
            *self,
            code_challenge@,
            state@,
            needs_consent(saved.deep_view()),
        ));
        pairs
    }

    /// Whether the authorization URL can be put together.
    pub fn has_room(&self, code_challenge: &str, state: &str, saved: Option<&McpOAuthTokens>) -> (r:
        bool)
        ensures
            r == pairs_fit(
                self.authorization_endpoint@,
                authorization_parameters(
                    *self,
                    code_challenge@,
                    state@,
                    needs_consent(saved.deep_view()),
                ),
            ),
    {
        let pairs = self.authorization_pairs(code_challenge, state, saved);
        can_append_pairs(self.authorization_endpoint.as_str(), &pairs)
    }

    /// The URL that the user opens to authorize the client: the authorization
    /// endpoint with the parameters of the request in its query.
    pub fn authorization_url(
        &self,
        code_challenge: &str,
        state: &str,
        saved: Option<&McpOAuthTokens>,
    ) -> (r: Result<String, McpError>)
        requires
            pairs_fit(
                self.authorization_endpoint@,
                authorization_parameters(
                    *self,
                    code_challenge@,
                    state@,
                    needs_consent(saved.deep_view()),
                ),
            ),
        ensures
            match url_parts(self.authorization_endpoint@) {
                Some(_) => r matches Ok(url) && url@ == url_with_pairs(
                    self.authorization_endpoint@,
                    authorization_parameters(
                        *self,
                        code_challenge@,
                        state@,
                        needs_consent(saved.deep_view()),
                    ),
                ),
                None => r matches Err(error) && error is InvalidAuthorizationEndpoint,
            },
    {
        let pairs = self.authorization_pairs(code_challenge, state, saved);
        match append_pairs(self.authorization_endpoint.as_str(), &pairs) {
            Ok(url) => Ok(url),
            Err(cause) => Err(McpError::InvalidAuthorizationEndpoint { cause }),
        }
    }

    /// The request that exchanges a code for tokens.
    pub fn exchange(&self, code: &str, verifier: &str) -> (r: TokenRequest)
        ensures
            r.endpoint@ == self.token_endpoint@,
            r.params.deep_view() == exchange_parameters(*self, code@, verifier@),
    {
        let mut params: Vec<(String, String)> = Vec::new();
        append_pair(&mut params, "grant_type", "authorization_code");
        append_pair(&mut params, "code", code);
        append_pair(&mut params, "redirect_uri", self.redirect_uri.as_str());
        append_pair(&mut params, "client_id", self.client_id.as_str());
        append_pair(&mut params, "code_verifier", verifier);
        append_pair(&mut params, "resource", self.server_url.as_str());
        if let Some(scope) = &self.scope {
            append_pair(&mut params, "scope", scope.as_str());
        }
        if let Some(secret) = &self.client_secret {
            append_pair(&mut params, "client_secret", secret.as_str());
        }
        assert(params.deep_view() =~= exchange_parameters(*self, code@, verifier@));
        TokenRequest { endpoint: self.token_endpoint.clone(), params }
    }

    /// The credentials to keep when the exchange has succeeded at `now`.
    pub fn into_tokens_at(self, response: TokenResponse, now: i64) -> (r: McpOAuthTokens)
        requires
            response.countable_at(now),
        ensures
            r.deep_view() == exchanged(
                response,
                now,
                self.client_id@,
                self.token_endpoint@,
                self.redirect_uri@,
            ),
    {
        exchanged_at(response, now, self.client_id, self.token_endpoint, self.redirect_uri)
    }

    /// The credentials to keep when the exchange has succeeded at this moment.
    pub fn into_tokens(self, response: TokenResponse) -> (r: McpOAuthTokens)
        requires
            response.countable(),
        ensures
            exists|now: i64| #[trigger]
                clock_time(now) && r.deep_view() == exchanged(
                    response,
                    now,
                    self.client_id@,
                    self.token_endpoint@,
                    self.redirect_uri@,
                ),
    {
        exchanged_now(response, self.client_id, self.token_endpoint, self.redirect_uri)
    }
}

/// What comes of the answer to a code exchange: an error where the provider
/// refused it.
pub fn exchange_outcome(status: u16) -> (r: Result<(), McpError>)
    ensures
        match r {
            Ok(_) => success(status),
            Err(error) => !success(status) && error == (McpError::ExchangeFailed { status }),
        },
{
    if is_success(status) {
        Ok(())
    } else {
        Err(McpError::ExchangeFailed { status })
    }
}

/// The form parameters that refresh tokens, in order.
pub open spec fn refresh_parameters(
    refresh_token: Seq<char>,
    client_id: Seq<char>,
    secret: Option<Seq<char>>,
) -> Seq<(Seq<char>, Seq<char>)> {
    let always = seq![
        ("grant_type"@, "refresh_token"@),
        ("refresh_token"@, refresh_token),
        ("client_id"@, client_id),
    ];
    match secret {
        Some(secret) => always.push(("client_secret"@, secret)),
        None => always,
    }
}

/// The request that refreshes `tokens`; `None` when refresh is impossible, so the
/// caller can fall back to a full browser flow.
pub fn refresh_request(tokens: &McpOAuthTokens, config: Option<&McpOAuthConfig>) -> (r: Option<
    TokenRequest,
>)
    ensures
        ({
            let t = tokens.deep_view();
            if t.refresh_token is Some && t.token_endpoint is Some && t.client_id is Some {
                &&& r matches Some(request)
                &&& request.endpoint@ == t.token_endpoint->0
                &&& request.params.deep_view() == refresh_parameters(
                    t.refresh_token->0,
                    t.client_id->0,
                    secret_for(config.deep_view()),
                )
            } else {
                r is None
            }
        }),
{
    let refresh_token = match &tokens.refresh_token {
        Some(token) => token,
        None => {
            return None;
        },
    };
    let endpoint = match &tokens.token_endpoint {
        Some(endpoint) => endpoint,
        None => {
            return None;
        },
    };
    let client_id = match &tokens.client_id {
        Some(id) => id,
        None => {
            return None;
        },
    };
    let mut params: Vec<(String, String)> = Vec::new();
    append_pair(&mut params, "grant_type", "refresh_token");
    append_pair(&mut params, "refresh_token", refresh_token.as_str());
    append_pair(&mut params, "client_id", client_id.as_str());
    if let Some(secret) = client_secret(config) {
        append_pair(&mut params, "client_secret", secret.as_str());
    }
    assert(params.deep_view() =~= refresh_parameters(
        refresh_token@,
        client_id@,
        secret_for(config.deep_view()),
    ));
    Some(TokenRequest { endpoint: endpoint.clone(), params })
}

/// What comes of the answer to a refresh at `now`; `reply` is its body, as far as it
/// could be read. `None` where the provider refused it or its body could not be
/// read, so the caller can fall back to a full browser flow.
pub fn refresh_outcome(
    tokens: &McpOAuthTokens,
    status: u16,
    reply: Option<TokenResponse>,
    now: i64,
) -> (r: Option<McpOAuthTokens>)
    requires
        reply matches Some(response) ==> response.countable_at(now),
    ensures
        match reply {
            Some(response) if success(status) => r.deep_view() == Some(
                refreshed(tokens.deep_view(), response, now),
            ),
            _ => r is None,
        },
{
    match reply {
        Some(response) => if is_success(status) {
            Some(refreshed_at(tokens, response, now))
        } else {
            None
        },
        None => None,
    }
}

/// What comes of the answer to a refresh at this moment.
pub fn refresh_outcome_now(
    tokens: &McpOAuthTokens,
    status: u16,
    reply: Option<TokenResponse>,
) -> (r: Option<McpOAuthTokens>)
    requires
        reply matches Some(response) ==> response.countable(),
    ensures
        match reply {
            Some(response) if success(status) => exists|now: i64| #[trigger]
                clock_time(now) && r.deep_view() == Some(
                    refreshed(tokens.deep_view(), response, now),
                ),
            _ => r is None,
        },
{
    let now = unix_now();
    refresh_outcome(tokens, status, reply, now)
}

/// Every authorization request carries the code challenge with its method, the
/// state and the resource, and asks for offline access.
pub proof fn requests_use_pkce(
    grant: Grant,
    code_challenge: Seq<char>,
    state: Seq<char>,
    consent: bool,
)
    ensures
        ({
            let params = authorization_parameters(grant, code_challenge, state, consent);
            &&& params.contains(("code_challenge"@, code_challenge))
            &&& params.contains(("code_challenge_method"@, "S256"@))
            &&& params.contains(("state"@, state))
            &&& params.contains(("resource"@, grant.server_url@))
            &&& params.contains(("access_type"@, "offline"@))
        }),
{
    let params = authorization_parameters(grant, code_challenge, state, consent);
    assert(params[3] == ("code_challenge"@, code_challenge));
    assert(params[4] == ("code_challenge_method"@, "S256"@));
    assert(params[5] == ("state"@, state));
    assert(params[6] == ("resource"@, grant.server_url@));
    assert(params[7] == ("access_type"@, "offline"@));
}

/// Consent is asked for again exactly where the saved credentials have no refresh
/// token.
pub proof fn consent_follows_a_missing_refresh_token(
    grant: Grant,
    code_challenge: Seq<char>,
    state: Seq<char>,
    saved: Option<Tokens>,
)
    ensures
        authorization_parameters(grant, code_challenge, state, needs_consent(saved)).contains(
            ("prompt"@, "consent"@),
        ) <==> saved is Some && saved->0.refresh_token is None,
{
    let consent = needs_consent(saved);
    let params = authorization_parameters(grant, code_challenge, state, consent);
    if consent {
        assert(params[8] == ("prompt"@, "consent"@));
    } else {
        reveal_strlit("prompt");
        reveal_strlit("response_type");
        reveal_strlit("client_id");
        reveal_strlit("redirect_uri");
        reveal_strlit("code_challenge");
        reveal_strlit("code_challenge_method");
        reveal_strlit("state");
        reveal_strlit("resource");
        reveal_strlit("access_type");
        reveal_strlit("scope");
        assert forall|i: int| 0 <= i < params.len() implies (#[trigger] params[i]).0
            != "prompt"@ by {
            assert("prompt"@[0] == 'p');
            assert(params[i].0[0] != 'p');
        }
    }
}

/// The redirect URI and the client id are the same in the authorization request, in
/// the exchange and in what is kept.
pub proof fn one_client_throughout(
    grant: Grant,
    code_challenge: Seq<char>,
    state: Seq<char>,
    consent: bool,
    code: Seq<char>,
    verifier: Seq<char>,
    response: TokenResponse,
    now: i64,
)
    ensures
        ({
            let asked = authorization_parameters(grant, code_challenge, state, consent);
            let sent = exchange_parameters(grant, code, verifier);
            let kept = exchanged(
                response,
                now,
                grant.client_id@,
                grant.token_endpoint@,
                grant.redirect_uri@,
            );
            &&& asked[1] == ("client_id"@, grant.client_id@)
            &&& sent[3] == ("client_id"@, grant.client_id@)
            &&& kept.client_id == Some(grant.client_id@)
            &&& asked[2] == ("redirect_uri"@, grant.redirect_uri@)
            &&& sent[2] == ("redirect_uri"@, grant.redirect_uri@)
            &&& kept.redirect_uri == Some(grant.redirect_uri@)
            &&& sent[4] == ("code_verifier"@, verifier)
        }),
{
    let asked = authorization_parameters(grant, code_challenge, state, consent);
    let sent = exchange_parameters(grant, code, verifier);
    assert(asked[1] == ("client_id"@, grant.client_id@));
    assert(asked[2] == ("redirect_uri"@, grant.redirect_uri@));
    assert(sent[2] == ("redirect_uri"@, grant.redirect_uri@));
    assert(sent[3] == ("client_id"@, grant.client_id@));
    assert(sent[4] == ("code_verifier"@, verifier));
}

/// Where the configuration names neither a redirect URI nor a client, signing in
/// again uses the redirect URI and the client of the credentials that were kept,
/// and registers no other.
pub proof fn kept_clients_are_reused(config: Option<OAuthConfig>, kept: Tokens)
    requires
        config matches Some(config) ==> config.redirect_uri is None && config.client_id is None,
        kept.redirect_uri is Some,
        kept.client_id is Some,
        kept.client_id->0.len() > 0,
    ensures
        wanted_redirect(config, Some(kept)) == kept.redirect_uri,
        known_client(config, Some(kept), kept.redirect_uri->0) == kept.client_id,
{
}

/// A client that was registered for one redirect URI is not used with another.
pub proof fn kept_clients_need_their_redirect(
    config: Option<OAuthConfig>,
    kept: Tokens,
    redirect_uri: Seq<char>,
)
    requires
        config matches Some(config) ==> config.client_id is None,
        kept.redirect_uri != Some(redirect_uri),
    ensures
        known_client(config, Some(kept), redirect_uri) is None,
{
}

/// How the authorization URL is presented.
#[derive(Clone, Copy, Debug, PartialEq, Eq, Structural)]
pub enum Presentation {
    /// It is fetched, as an automated run does in place of a user.
    Fetch,
    /// It is opened in the system browser.
    Browser,
    /// It is only printed.
    PrintOnly,
}

/// How the authorization URL is presented: fetched where the run is automated,
/// else opened unless no browser is wanted.
pub fn presentation(autofollow: bool, no_browser: bool) -> (r: Presentation)
    ensures
        r == (if autofollow {
            Presentation::Fetch
        } else if no_browser {
            Presentation::PrintOnly
        } else {
            Presentation::Browser
        }),
{
    if autofollow {
        Presentation::Fetch
    } else if !no_browser {
        Presentation::Browser
    } else {
        Presentation::PrintOnly
    }
}

/// A plan takes each thing from the configuration where it says so, and from what was
/// discovered where it does not, whatever the others are.
pub proof fn plans_take_each_thing_by_itself(
    plan: Plan,
    config: OAuthConfig,
    meta: AuthServer,
    server_url: Seq<char>,
)
    requires
        plans(plan, Some(config), meta, server_url),
    ensures
        config.authorization_endpoint is Some ==> plan.authorization_endpoint@
            == config.authorization_endpoint->0,
        config.authorization_endpoint is None ==> Some(plan.authorization_endpoint@)
            == meta.authorization_endpoint,
        config.token_endpoint is Some ==> plan.token_endpoint@ == config.token_endpoint->0,
        config.token_endpoint is None ==> Some(plan.token_endpoint@) == meta.token_endpoint,
        plan.registration_endpoint.deep_view() == meta.registration_endpoint,
        plan.scope.deep_view() == scope_for(Some(config), meta.scopes_supported),
        plan.client_secret.deep_view() == config.client_secret,
        plan.server_url@ == server_url,
{
}

/// Without a configuration a plan is what was discovered.
pub proof fn plans_are_what_was_discovered(plan: Plan, meta: AuthServer, server_url: Seq<char>)
    requires
        plans(plan, None, meta, server_url),
    ensures
        Some(plan.authorization_endpoint@) == meta.authorization_endpoint,
        Some(plan.token_endpoint@) == meta.token_endpoint,
        plan.registration_endpoint.deep_view() == meta.registration_endpoint,
        plan.scope.deep_view() == scope_for(None, meta.scopes_supported),
        plan.client_secret is None,
        plan.server_url@ == server_url,
{
}

/// A plan that is carried out stays what it is; only the client and its redirect URI
/// come to it.
pub proof fn grants_keep_their_plan(
    plan: Plan,
    grant: Grant,
    redirect_uri: Seq<char>,
    client_id: Seq<char>,
)
    requires
        plan.leads_to(grant, redirect_uri, client_id),
    ensures
        grant.authorization_endpoint@ == plan.authorization_endpoint@,
        grant.token_endpoint@ == plan.token_endpoint@,
        grant.scope.deep_view() == plan.scope.deep_view(),
        grant.client_secret.deep_view() == plan.client_secret.deep_view(),
        grant.server_url@ == plan.server_url@,
        grant.redirect_uri@ == redirect_uri,
        grant.client_id@ == client_id,
{
}

/// The parameters of an authorization request, one by one: eight that are always
/// there, the wish for consent where it is needed, and the scope where there is one,
/// each whatever the others are.
pub proof fn authorization_parameters_are_these(
    grant: Grant,
    code_challenge: Seq<char>,
    state: Seq<char>,
    consent: bool,
)
    ensures
        ({
            let params = authorization_parameters(grant, code_challenge, state, consent);
            let extra = if consent {
                1int
            } else {
                0int
            };
            &&& grant.scope is Some ==> params.len() == 9 + extra && params.last() == (
                "scope"@,
                grant.scope->0@,
            )
            &&& grant.scope is None ==> params.len() == 8 + extra
            &&& consent ==> params[8] == ("prompt"@, "consent"@)
            &&& params[0] == ("response_type"@, "code"@)
            &&& params[1] == ("client_id"@, grant.client_id@)
            &&& params[2] == ("redirect_uri"@, grant.redirect_uri@)
            &&& params[3] == ("code_challenge"@, code_challenge)
            &&& params[4] == ("code_challenge_method"@, "S256"@)
            &&& params[5] == ("state"@, state)
            &&& params[6] == ("resource"@, grant.server_url@)
            &&& params[7] == ("access_type"@, "offline"@)
        }),
        forall|saved: Tokens| #[trigger]
            needs_consent(Some(saved)) <==> saved.refresh_token is None,
        !needs_consent(None),
{
}

/// The parameters of a code exchange, one by one: six that are always there, the scope
/// where there is one, and the secret where there is one, each whatever the other is.
pub proof fn exchange_parameters_are_these(grant: Grant, code: Seq<char>, verifier: Seq<char>)
    ensures
        ({
            let params = exchange_parameters(grant, code, verifier);
            let scoped = if grant.scope is Some {
                1int
            } else {
                0int
            };
            &&& grant.client_secret is Some ==> params.len() == 7 + scoped && params.last() == (
                "client_secret"@,
                grant.client_secret->0@,
            )
            &&& grant.client_secret is None ==> params.len() == 6 + scoped
            &&& grant.scope is Some ==> params[6] == ("scope"@, grant.scope->0@)
            &&& params[0] == ("grant_type"@, "authorization_code"@)
            &&& params[1] == ("code"@, code)
            &&& params[2] == ("redirect_uri"@, grant.redirect_uri@)
            &&& params[3] == ("client_id"@, grant.client_id@)
            &&& params[4] == ("code_verifier"@, verifier)
            &&& params[5] == ("resource"@, grant.server_url@)
        }),
{
}

/// The parameters of a refresh, one by one: three that are always there, and the
/// secret where there is one.
pub proof fn refresh_parameters_are_these(
    refresh_token: Seq<char>,
    client_id: Seq<char>,
    secret: Option<Seq<char>>,
)
    ensures
        ({
            let params = refresh_parameters(refresh_token, client_id, secret);
            &&& secret is Some ==> params.len() == 4 && params[3] == ("client_secret"@, secret->0)
            &&& secret is None ==> params.len() == 3
            &&& params[0] == ("grant_type"@, "refresh_token"@)
            &&& params[1] == ("refresh_token"@, refresh_token)
            &&& params[2] == ("client_id"@, client_id)
        }),
{
}

} // verus!
