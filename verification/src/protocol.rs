//! The messages and the configuration that the transports share.

use crate::text::{copy_text, copy_texts};
use vstd::prelude::*;

verus! {

/// A JSON-RPC response. `V` is the caller's type for a JSON value.
///
/// A JSON-RPC notification reads as a response without an `id`.
#[derive(Debug)]
pub struct JsonRpcResponse<V> {
    pub id: Option<u64>,
    pub result: Option<V>,
    pub error: Option<V>,
}

/// Whether `parse` computes the function `p` of the text it is given.
pub open spec fn parses_as<T, F: Fn(&str) -> Option<T>>(
    parse: F,
    p: spec_fn(Seq<char>) -> Option<T>,
) -> bool {
    forall|text: &str, r: Option<T>| #[trigger]
        call_ensures(parse, (text,), r) ==> r == p(text@)
}

/// What a configuration says about a server's OAuth provider.
#[derive(Debug)]
pub struct McpOAuthConfig {
    pub authorization_endpoint: Option<String>,
    pub token_endpoint: Option<String>,
    pub scopes: Vec<String>,
    pub redirect_uri: Option<String>,
    pub client_id: Option<String>,
    pub client_secret: Option<String>,
}

/// `McpOAuthConfig` as a mathematical value.
#[verifier::ext_equal]
pub struct OAuthConfig {
    pub authorization_endpoint: Option<Seq<char>>,
    pub token_endpoint: Option<Seq<char>>,
    pub scopes: Seq<Seq<char>>,
    pub redirect_uri: Option<Seq<char>>,
    pub client_id: Option<Seq<char>>,
    pub client_secret: Option<Seq<char>>,
}

impl DeepView for McpOAuthConfig {
    type V = OAuthConfig;

    open spec fn deep_view(&self) -> OAuthConfig {
        OAuthConfig {
            authorization_endpoint: self.authorization_endpoint.deep_view(),
            token_endpoint: self.token_endpoint.deep_view(),
            scopes: self.scopes.deep_view(),
            redirect_uri: self.redirect_uri.deep_view(),
            client_id: self.client_id.deep_view(),
            client_secret: self.client_secret.deep_view(),
        }
    }
}

impl Clone for McpOAuthConfig {
    fn clone(&self) -> (r: Self)
        ensures
            r.deep_view() == self.deep_view(),
    {
        McpOAuthConfig {
            authorization_endpoint: copy_text(&self.authorization_endpoint),
            token_endpoint: copy_text(&self.token_endpoint),
            scopes: copy_texts(self.scopes.as_slice()),
            redirect_uri: copy_text(&self.redirect_uri),
            client_id: copy_text(&self.client_id),
            client_secret: copy_text(&self.client_secret),
        }
    }
}

/// A copy of a configuration that may be there.
pub fn copy_oauth_config(config: &Option<McpOAuthConfig>) -> (r: Option<McpOAuthConfig>)
    ensures
        r.deep_view() == config.deep_view(),
{
    match config {
        Some(config) => Some(config.clone()),
        None => None,
    }
}

/// What a configuration says about a remote server.
#[derive(Debug)]
pub struct McpServerConfig {
    pub url: Option<String>,
    /// Headers that are sent with every request.
    pub headers: Vec<(String, String)>,
    pub oauth: Option<McpOAuthConfig>,
}

/// Copies of name and value pairs, in order.
pub fn copy_pairs(pairs: &[(String, String)]) -> (r: Vec<(String, String)>)
    ensures
        r.deep_view() == pairs.deep_view(),
{
    let mut r: Vec<(String, String)> = Vec::new();
    append_copies(&mut r, pairs);
    assert(r.deep_view() =~= pairs.deep_view());
    r
}

/// Appends copies of name and value pairs, in order.
pub fn append_copies(list: &mut Vec<(String, String)>, pairs: &[(String, String)])
    ensures
        final(list).deep_view() == old(list).deep_view() + pairs.deep_view(),
{
    let ghost before = list.deep_view();
    for i in 0..pairs.len()
        invariant
            list.deep_view() == before + pairs.deep_view().take(i as int),
    {
        let ghost had = list.deep_view();
        list.push((pairs[i].0.clone(), pairs[i].1.clone()));
        assert(list.deep_view() =~= had.push(pairs@[i as int].deep_view()));
        assert(pairs.deep_view().take(i + 1) =~= pairs.deep_view().take(i as int).push(
            pairs@[i as int].deep_view(),
        ));
    }
    assert(pairs.deep_view().take(pairs@.len() as int) =~= pairs.deep_view());
}

/// Appends one name and value pair.
pub fn append_pair(list: &mut Vec<(String, String)>, name: &str, value: &str)
    ensures
        final(list).deep_view() == old(list).deep_view().push((name@, value@)),
{
    let ghost had = list.deep_view();
    list.push((name.to_owned(), value.to_owned()));
    assert(list.deep_view() =~= had.push((name@, value@)));
}

/// A configuration is seen with all that it holds.
pub proof fn configurations_are_seen_whole(config: McpOAuthConfig)
    ensures
        config.deep_view().authorization_endpoint == config.authorization_endpoint.deep_view(),
        config.deep_view().token_endpoint == config.token_endpoint.deep_view(),
        config.deep_view().scopes == config.scopes.deep_view(),
        config.deep_view().redirect_uri == config.redirect_uri.deep_view(),
        config.deep_view().client_id == config.client_id.deep_view(),
        config.deep_view().client_secret == config.client_secret.deep_view(),
{
}

} // verus!
