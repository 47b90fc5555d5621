//! Finding the authorization server of a remote server and its endpoints.

use crate::decimal::numeral;
use crate::error::McpError;
use crate::oauth::challenge::{metadata_in, resource_metadata_from_challenge};
use crate::text::{
    leading_runs_are_trimmed, only, to_chars, to_text, trailing_runs_are_trimmed, trim_end_of,
    trim_start_of, trimmed_is_no_longer, without_leading, without_trailing,
};
use crate::web_url::{
    fragment_text, moved, origin_of, origin_text, plain_path, url_parts, web_address, ParsedUrl,
};
use vstd::prelude::*;

verus! {

/// How many characters the addresses that are derived here add to a path.
pub const WELL_KNOWN_ROOM: usize = 64;

/// What a protected resource says about itself.
#[derive(Debug)]
pub struct ProtectedResourceMetadata {
    pub authorization_servers: Vec<String>,
    /// The resource server may advertise the scopes its authorization request
    /// must include, where its authorization server's metadata omits them.
    pub scopes_supported: Vec<String>,
}

/// What an authorization server says about itself.
#[derive(Debug)]
pub struct AuthServerMetadata {
    pub authorization_endpoint: Option<String>,
    pub token_endpoint: Option<String>,
    pub registration_endpoint: Option<String>,
    /// Scopes the server advertises. Some servers reject or downgrade requests
    /// that ask for no scope at all.
    pub scopes_supported: Vec<String>,
}

/// `AuthServerMetadata` as a mathematical value.
#[verifier::ext_equal]
pub struct AuthServer {
    pub authorization_endpoint: Option<Seq<char>>,
    pub token_endpoint: Option<Seq<char>>,
    pub registration_endpoint: Option<Seq<char>>,
    pub scopes_supported: Seq<Seq<char>>,
}

impl DeepView for AuthServerMetadata {
    type V = AuthServer;

    open spec fn deep_view(&self) -> AuthServer {
        AuthServer {
            authorization_endpoint: self.authorization_endpoint.deep_view(),
            token_endpoint: self.token_endpoint.deep_view(),
            registration_endpoint: self.registration_endpoint.deep_view(),
            scopes_supported: self.scopes_supported.deep_view(),
        }
    }
}

/// `base` with `suffix` below it, and exactly one slash between the two.
pub open spec fn path_below(base: Seq<char>, suffix: Seq<char>) -> Seq<char> {
    trim_end_of(base, '/') + seq!['/'] + trim_start_of(suffix, '/')
}

/// `base_path` with `suffix` below it, and exactly one slash between the two.
pub fn well_known_path(base_path: &str, suffix: &str) -> (r: String)
    ensures
        r@ == path_below(base_path@, suffix@),
{
    let base = to_chars(base_path);
    let below = to_chars(suffix);
    let mut r = to_text(without_trailing(base.as_slice(), '/'));
    r.push('/');
    r.append(to_text(without_leading(below.as_slice(), '/')).as_str());
    assert(r@ =~= path_below(base_path@, suffix@));
    r
}

/// Where a document with the given suffix stands for `base`.
pub open spec fn well_known_url(base: ParsedUrl, suffix: Seq<char>) -> Seq<char> {
    moved(base.text(), base.parts(), path_below(base.parts().path, suffix))
}

/// Where a document with the given suffix stands for `base`.
///
/// OAuth issuers are allowed to include a tenant or authorization-server path,
/// which is kept: replacing it with the suffix would query the provider root and
/// make a valid server look like it has no dynamic registration support.
pub fn well_known(base: &ParsedUrl, suffix: &str) -> (r: String)
    requires
        base.has_room(suffix@.len() as int + 1),
    ensures
        r@ == well_known_url(*base, suffix@),
{
    let path = well_known_path(base.components().path.as_str(), suffix);
    proof {
        trimmed_is_no_longer(base.parts().path, only('/'));
        trimmed_is_no_longer(suffix@, only('/'));
    }
    base.at_path(path.as_str())
}

/// The URL of a server, parsed.
pub fn server_base(server_url: &str) -> (r: Result<ParsedUrl, McpError>)
    ensures
        r is Ok <==> url_parts(server_url@) is Some,
        r matches Ok(base) ==> base.text() == server_url@ && url_parts(server_url@) == Some(
            base.parts(),
        ),
        r matches Err(error) ==> error is InvalidServerUrl,
{
    match ParsedUrl::parse(server_url) {
        Ok(base) => Ok(base),
        Err(cause) => Err(McpError::InvalidServerUrl { cause }),
    }
}

/// The address of the metadata that a challenge names, if there is one that does.
pub open spec fn named_metadata(challenge: Option<Seq<char>>) -> Option<Seq<char>> {
    match challenge {
        Some(header) => metadata_in(header),
        None => None,
    }
}

/// Where the metadata of a protected resource is fetched from: the address that
/// the challenge names, else the well-known one.
pub open spec fn resource_metadata_address(base: ParsedUrl, challenge: Option<Seq<char>>) -> Seq<
    char,
> {
    match named_metadata(challenge) {
        Some(url) => url,
        None => well_known_url(base, "/.well-known/oauth-protected-resource"@),
    }
}

/// Where the metadata of the protected resource at `base` is fetched from.
pub fn resource_metadata_url(base: &ParsedUrl, challenge: Option<&str>) -> (r: String)
    requires
        named_metadata(challenge.deep_view()) is None ==> base.has_room(WELL_KNOWN_ROOM as int),
    ensures
        r@ == resource_metadata_address(*base, challenge.deep_view()),
{
    let named = match challenge {
        Some(header) => resource_metadata_from_challenge(header),
        None => None,
    };
    match named {
        Some(url) => url,
        None => {
            proof {
                reveal_strlit("/.well-known/oauth-protected-resource");
            }
            well_known(base, "/.well-known/oauth-protected-resource")
        },
    }
}

/// The authorization server of a resource: the first that it names, else the
/// origin of the resource itself.
pub open spec fn issuer_of(base: ParsedUrl, authorization_servers: Seq<Seq<char>>) -> Seq<char> {
    if authorization_servers.len() > 0 {
        authorization_servers[0]
    } else {
        origin_of(base.text())
    }
}

/// Whether `issuer` is the authorization server of the resource at `base`. A name
/// that is no URL is ignored in favour of the resource's own URL.
pub open spec fn names_issuer(
    base: ParsedUrl,
    authorization_servers: Seq<Seq<char>>,
    issuer: ParsedUrl,
) -> bool {
    let name = issuer_of(base, authorization_servers);
    if url_parts(name) is Some {
        issuer.text() == name && issuer.parts() == url_parts(name)->0
    } else {
        issuer.text() == base.text() && issuer.parts() == base.parts()
    }
}

/// The authorization servers that a resource names.
pub open spec fn servers_of(resource: Option<ProtectedResourceMetadata>) -> Seq<Seq<char>> {
    match resource {
        Some(meta) => meta.authorization_servers.deep_view(),
        None => Seq::empty(),
    }
}

/// The scopes that a resource advertises.
pub open spec fn scopes_of(resource: Option<ProtectedResourceMetadata>) -> Seq<Seq<char>> {
    match resource {
        Some(meta) => meta.scopes_supported.deep_view(),
        None => Seq::empty(),
    }
}

/// The authorization server of the resource at `base`. A name that is no URL is
/// ignored in favour of the resource's own URL.
pub fn issuer_url(base: &ParsedUrl, authorization_servers: &[String]) -> (r: ParsedUrl)
    ensures
        names_issuer(*base, authorization_servers.deep_view(), r),
{
    let issuer: String = if authorization_servers.len() > 0 {
        authorization_servers[0].clone()
    } else {
        base.origin()
    };
    match ParsedUrl::parse(issuer.as_str()) {
        Ok(url) => url,
        Err(_) => base.clone(),
    }
}

/// Metadata that an authorization can be started with.
pub open spec fn usable(meta: AuthServer) -> bool {
    meta.authorization_endpoint is Some && meta.token_endpoint is Some
}

/// `meta` with the scopes of the resource where it advertises none of its own.
pub open spec fn with_resource_scopes(meta: AuthServer, resource_scopes: Seq<Seq<char>>) ->
    AuthServer {
    AuthServer {
        scopes_supported: if meta.scopes_supported.len() == 0 {
            resource_scopes
        } else {
            meta.scopes_supported
        },
        ..meta
    }
}

/// The conventional endpoint layout of an authorization server.
pub open spec fn conventional(issuer: ParsedUrl, resource_scopes: Seq<Seq<char>>) -> AuthServer {
    AuthServer {
        authorization_endpoint: Some(well_known_url(issuer, "/authorize"@)),
        token_endpoint: Some(well_known_url(issuer, "/token"@)),
        registration_endpoint: Some(well_known_url(issuer, "/register"@)),
        scopes_supported: resource_scopes,
    }
}

/// The address that is asked for metadata, first or after one other.
pub open spec fn candidate(issuer: ParsedUrl, second: bool) -> Seq<char> {
    if second {
        well_known_url(issuer, "/.well-known/openid-configuration"@)
    } else {
        well_known_url(issuer, "/.well-known/oauth-authorization-server"@)
    }
}

/// The search for an authorization server's metadata.
#[derive(Debug)]
pub struct Discovery {
    issuer: ParsedUrl,
    resource_scopes: Vec<String>,
    second: bool,
}

/// How a search goes on.
#[derive(Debug)]
pub enum Search {
    /// Ask the next address.
    Ask(Discovery),
    /// The search has ended with this.
    Found(AuthServerMetadata),
}

impl Discovery {
    /// The authorization server that is asked.
    pub closed spec fn issuer(self) -> ParsedUrl {
        self.issuer
    }

    /// The scopes that the resource advertises.
    pub closed spec fn resource_scopes(self) -> Seq<Seq<char>> {
        self.resource_scopes.deep_view()
    }

    /// Whether the first address has been asked in vain.
    pub closed spec fn second(self) -> bool {
        self.second
    }

    /// What the search ends with, given what the address that is asked now answers
    /// and what the one after it would, if there is one.
    pub open spec fn outcome(self, reply: Option<AuthServer>, later: Option<AuthServer>) ->
        AuthServer {
        discovered(
            self.issuer(),
            self.resource_scopes(),
            reply,
            if self.second() {
                None
            } else {
                later
            },
        )
    }

    /// Starts the search for the resource at `base`, given what is known of the
    /// resource.
    pub fn for_resource(base: &ParsedUrl, resource: Option<ProtectedResourceMetadata>) -> (r:
        Discovery)
        ensures
            names_issuer(*base, servers_of(resource), r.issuer()),
            r.resource_scopes() == scopes_of(resource),
            !r.second(),
    {
        match resource {
            Some(meta) => Discovery {
                issuer: issuer_url(base, meta.authorization_servers.as_slice()),
                resource_scopes: meta.scopes_supported,
                second: false,
            },
            None => {
                let none: Vec<String> = Vec::new();
                let issuer = issuer_url(base, none.as_slice());
                assert(none.deep_view() =~= Seq::<Seq<char>>::empty());
                Discovery { issuer, resource_scopes: none, second: false }
            },
        }
    }

    /// Whether the addresses that are asked can be put together.
    pub fn has_room(&self) -> (r: bool)
        ensures
            r == self.issuer().has_room(WELL_KNOWN_ROOM as int),
    {
        self.issuer.has_room_for(WELL_KNOWN_ROOM)
    }

    /// The address to ask.
    pub fn address(&self) -> (r: String)
        requires
            self.issuer().has_room(WELL_KNOWN_ROOM as int),
        ensures
            r@ == candidate(self.issuer(), self.second()),
    {
        proof {
            reveal_strlit("/.well-known/oauth-authorization-server");
            reveal_strlit("/.well-known/openid-configuration");
        }
        if self.second {
            well_known(&self.issuer, "/.well-known/openid-configuration")
        } else {
            well_known(&self.issuer, "/.well-known/oauth-authorization-server")
        }
    }

    /// How the search goes on after the address has answered, `None` where it gave
    /// no metadata.
    pub fn answered(self, reply: Option<AuthServerMetadata>) -> (r: Search)
        requires
            self.second() && !usable_reply(reply.deep_view()) ==> self.issuer().has_room(
                WELL_KNOWN_ROOM as int,
            ),
        ensures
            match r {
                Search::Found(meta) => {
                    &&& self.second() || usable_reply(reply.deep_view())
                    &&& forall|later: Option<AuthServer>|
                        meta.deep_view() == #[trigger] self.outcome(reply.deep_view(), later)
                },
                Search::Ask(next) => {
                    &&& !self.second() && !usable_reply(reply.deep_view())
                    &&& next.second()
                    &&& next.issuer() == self.issuer()
                    &&& next.resource_scopes() == self.resource_scopes()
                    &&& forall|later: Option<AuthServer>|
                        next.outcome(later, None) == #[trigger] self.outcome(
                            reply.deep_view(),
                            later,
                        )
                },
            },
    {
        if let Some(meta) = reply {
            if meta.authorization_endpoint.is_some() && meta.token_endpoint.is_some() {
                let scopes_supported = if meta.scopes_supported.len() == 0 {
                    self.resource_scopes
                } else {
                    meta.scopes_supported
                };
                return Search::Found(
                    AuthServerMetadata {
                        authorization_endpoint: meta.authorization_endpoint,
                        token_endpoint: meta.token_endpoint,
                        registration_endpoint: meta.registration_endpoint,
                        scopes_supported,
                    },
                );
            }
        }
        if self.second {
            Search::Found(self.fallback())
        } else {
            Search::Ask(
                Discovery {
                    issuer: self.issuer,
                    resource_scopes: self.resource_scopes,
                    second: true,
                },
            )
        }
    }

    /// The conventional endpoint layout.
    fn fallback(self) -> (r: AuthServerMetadata)
        requires
            self.issuer().has_room(WELL_KNOWN_ROOM as int),
        ensures
            r.deep_view() == conventional(self.issuer(), self.resource_scopes()),
    {
        proof {
            reveal_strlit("/authorize");
            reveal_strlit("/token");
            reveal_strlit("/register");
        }
        AuthServerMetadata {
            authorization_endpoint: Some(well_known(&self.issuer, "/authorize")),
            token_endpoint: Some(well_known(&self.issuer, "/token")),
            registration_endpoint: Some(well_known(&self.issuer, "/register")),
            scopes_supported: self.resource_scopes,
        }
    }
}

/// Whether an address answered with metadata that an authorization can be started
/// with.
pub open spec fn usable_reply(reply: Option<AuthServer>) -> bool {
    reply is Some && usable(reply->0)
}

/// What the search ends with, given what each address answers.
pub open spec fn discovered(
    issuer: ParsedUrl,
    resource_scopes: Seq<Seq<char>>,
    first: Option<AuthServer>,
    second: Option<AuthServer>,
) -> AuthServer {
    if usable_reply(first) {
        with_resource_scopes(first->0, resource_scopes)
    } else if usable_reply(second) {
        with_resource_scopes(second->0, resource_scopes)
    } else {
        conventional(issuer, resource_scopes)
    }
}

/// The search always ends with an authorization endpoint and a token endpoint,
/// and with the scopes of the resource unless the authorization server
/// advertises its own.
pub proof fn discovery_finds_endpoints(
    issuer: ParsedUrl,
    resource_scopes: Seq<Seq<char>>,
    first: Option<AuthServer>,
    second: Option<AuthServer>,
)
    ensures
        usable(discovered(issuer, resource_scopes, first, second)),
        !usable_reply(first) && !usable_reply(second) ==> discovered(
            issuer,
            resource_scopes,
            first,
            second,
        ).scopes_supported == resource_scopes,
        usable_reply(first) && first->0.scopes_supported.len() > 0 ==> discovered(
            issuer,
            resource_scopes,
            first,
            second,
        ).scopes_supported == first->0.scopes_supported,
        usable_reply(first) && first->0.scopes_supported.len() == 0 ==> discovered(
            issuer,
            resource_scopes,
            first,
            second,
        ).scopes_supported == resource_scopes,
{
}

/// The path of an issuer stays in front of what is looked up below it.
pub proof fn issuer_paths_are_kept(base: Seq<char>, suffix: Seq<char>)
    requires
        base.len() > 0,
        base.last() != '/',
        suffix.len() > 0,
        suffix[0] != '/',
    ensures
        path_below(base, suffix) == base + seq!['/'] + suffix,
        path_below(base, seq!['/'] + suffix) == base + seq!['/'] + suffix,
        path_below(base + seq!['/'], suffix) == base + seq!['/'] + suffix,
        path_below(seq!['/'], suffix) == seq!['/'] + suffix,
{
    reveal_with_fuel(crate::text::drop_leading, 3);
    reveal_with_fuel(crate::text::drop_trailing, 3);
    let f = only('/');
    assert(f('/'));
    assert(!f(base.last()));
    assert(!f(suffix[0]));
    assert((seq!['/'] + suffix).drop_first() =~= suffix);
    assert((base + seq!['/']).drop_last() =~= base);
    assert((base + seq!['/']).last() == '/');
    assert(seq!['/'].drop_last() =~= Seq::<char>::empty());
    assert(path_below(seq!['/'], suffix) =~= seq!['/'] + suffix);
}

/// What is looked up for a web address stands at its origin, below its own path.
pub proof fn well_known_addresses_keep_the_issuer_path(base: ParsedUrl, suffix: Seq<char>)
    requires
        web_address(base.parts()),
        base.parts().path.len() > 0,
        base.parts().path.last() != '/',
        suffix.len() > 0,
        suffix[0] != '/',
        plain_path(base.parts().path + seq!['/'] + suffix),
    ensures
        well_known_url(base, seq!['/'] + suffix) == origin_text(base.parts()) + base.parts().path
            + seq!['/'] + suffix + fragment_text(base.parts().fragment),
{
    let path = base.parts().path;
    issuer_paths_are_kept(path, suffix);
    assert(origin_text(base.parts()) + (path + seq!['/'] + suffix) + fragment_text(
        base.parts().fragment,
    ) =~= origin_text(base.parts()) + path + seq!['/'] + suffix + fragment_text(base.parts().fragment));
}

/// What is looked up for two web addresses stands at the same address where they
/// differ only in their query and in the slashes at the end of their path.
pub proof fn queries_and_trailing_slashes_make_no_difference(
    a: ParsedUrl,
    b: ParsedUrl,
    suffix: Seq<char>,
)
    requires
        web_address(a.parts()),
        web_address(b.parts()),
        a.parts().scheme == b.parts().scheme,
        a.parts().host == b.parts().host,
        a.parts().port == b.parts().port,
        a.parts().fragment == b.parts().fragment,
        trim_end_of(a.parts().path, '/') == trim_end_of(b.parts().path, '/'),
        plain_path(path_below(a.parts().path, suffix)),
    ensures
        well_known_url(a, suffix) == well_known_url(b, suffix),
{
}

/// What an address that answers with both endpoints says is kept whole: its endpoints,
/// all three, and its scopes unless it names none, in which case those of the resource
/// stand in. The first address that does so decides.
pub proof fn usable_metadata_is_kept_whole(
    issuer: ParsedUrl,
    resource_scopes: Seq<Seq<char>>,
    first: Option<AuthServer>,
    second: Option<AuthServer>,
    meta: AuthServer,
)
    requires
        meta.authorization_endpoint is Some,
        meta.token_endpoint is Some,
        first == Some(meta) || (second == Some(meta) && (first is None
            || first->0.authorization_endpoint is None || first->0.token_endpoint is None)),
    ensures
        ({
            let found = discovered(issuer, resource_scopes, first, second);
            &&& found.authorization_endpoint == meta.authorization_endpoint
            &&& found.token_endpoint == meta.token_endpoint
            &&& found.registration_endpoint == meta.registration_endpoint
            &&& meta.scopes_supported.len() > 0 ==> found.scopes_supported == meta.scopes_supported
            &&& meta.scopes_supported.len() == 0 ==> found.scopes_supported == resource_scopes
        }),
{
}

/// Where no address answers with both endpoints, the search ends with the three
/// conventional ones below the issuer and with the scopes of the resource.
pub proof fn the_conventional_layout_is_the_last_resort(
    issuer: ParsedUrl,
    resource_scopes: Seq<Seq<char>>,
    first: Option<AuthServer>,
    second: Option<AuthServer>,
)
    requires
        first is None || first->0.authorization_endpoint is None || first->0.token_endpoint is None,
        second is None || second->0.authorization_endpoint is None || second->0.token_endpoint
            is None,
    ensures
        ({
            let found = discovered(issuer, resource_scopes, first, second);
            &&& found.authorization_endpoint == Some(well_known_url(issuer, "/authorize"@))
            &&& found.token_endpoint == Some(well_known_url(issuer, "/token"@))
            &&& found.registration_endpoint == Some(well_known_url(issuer, "/register"@))
            &&& found.scopes_supported == resource_scopes
        }),
{
}

/// A search ends as its first address says, and as the second one says only while
/// that one has not been asked.
pub proof fn searches_end_by_their_answers(
    search: Discovery,
    reply: Option<AuthServer>,
    later: Option<AuthServer>,
)
    ensures
        !search.second() ==> search.outcome(reply, later) == discovered(
            search.issuer(),
            search.resource_scopes(),
            reply,
            later,
        ),
        search.second() ==> search.outcome(reply, later) == discovered(
            search.issuer(),
            search.resource_scopes(),
            reply,
            None,
        ),
        usable_reply(reply) <==> reply is Some && reply->0.authorization_endpoint is Some
            && reply->0.token_endpoint is Some,
        candidate(search.issuer(), false) == well_known_url(
            search.issuer(),
            "/.well-known/oauth-authorization-server"@,
        ),
        candidate(search.issuer(), true) == well_known_url(
            search.issuer(),
            "/.well-known/openid-configuration"@,
        ),
{
}

/// The issuer is the first server that is named, however many are, and the origin of
/// the resource where none is; a name that is no URL leaves the resource itself.
pub proof fn the_first_named_server_is_the_issuer(
    base: ParsedUrl,
    servers: Seq<Seq<char>>,
    issuer: ParsedUrl,
)
    requires
        names_issuer(base, servers, issuer),
    ensures
        servers.len() > 0 && url_parts(servers[0]) is Some ==> issuer.text() == servers[0]
            && issuer.parts() == url_parts(servers[0])->0,
        servers.len() > 0 && url_parts(servers[0]) is None ==> issuer.text() == base.text()
            && issuer.parts() == base.parts(),
        servers.len() == 0 && url_parts(origin_of(base.text())) is Some ==> issuer.text()
            == origin_of(base.text()) && issuer.parts() == url_parts(origin_of(base.text()))->0,
        servers.len() == 0 && url_parts(origin_of(base.text())) is None ==> issuer.text()
            == base.text() && issuer.parts() == base.parts(),
{
}

/// A resource is taken at its word, and one of which nothing is known says nothing.
pub proof fn resources_are_taken_at_their_word(meta: ProtectedResourceMetadata)
    ensures
        servers_of(Some(meta)) == meta.authorization_servers.deep_view(),
        scopes_of(Some(meta)) == meta.scopes_supported.deep_view(),
        servers_of(None) == Seq::<Seq<char>>::empty(),
        scopes_of(None) == Seq::<Seq<char>>::empty(),
{
}

/// Metadata is seen with all that it holds.
pub proof fn metadata_is_seen_whole(meta: AuthServerMetadata)
    ensures
        meta.deep_view().authorization_endpoint == meta.authorization_endpoint.deep_view(),
        meta.deep_view().token_endpoint == meta.token_endpoint.deep_view(),
        meta.deep_view().registration_endpoint == meta.registration_endpoint.deep_view(),
        meta.deep_view().scopes_supported == meta.scopes_supported.deep_view(),
{
}

/// The address of a resource's metadata is the one that its challenge names, and the
/// well-known one where there is no challenge or it names none.
pub proof fn challenges_come_before_convention(base: ParsedUrl, header: Seq<char>)
    ensures
        metadata_in(header) is Some ==> resource_metadata_address(base, Some(header))
            == metadata_in(header)->0,
        metadata_in(header) is None ==> resource_metadata_address(base, Some(header))
            == resource_metadata_address(base, None),
        resource_metadata_address(base, None) == well_known_url(
            base,
            "/.well-known/oauth-protected-resource"@,
        ),
        named_metadata(Some(header)) == metadata_in(header),
        named_metadata(None) is None,
{
}

/// One slash stands between a path and what is looked up below it, however many end
/// the one and start the other.
pub proof fn paths_are_joined_by_one_slash(
    base: Seq<char>,
    behind: Seq<char>,
    before: Seq<char>,
    suffix: Seq<char>,
)
    requires
        forall|k: int| 0 <= k < behind.len() ==> #[trigger] behind[k] == '/',
        forall|k: int| 0 <= k < before.len() ==> #[trigger] before[k] == '/',
        base.len() > 0 ==> base.last() != '/',
        suffix.len() > 0 ==> suffix[0] != '/',
    ensures
        path_below(base + behind, before + suffix) == base + seq!['/'] + suffix,
{
    trailing_runs_are_trimmed(base, behind, '/');
    leading_runs_are_trimmed(before, suffix, '/');
}

/// What is looked up for a web address is its scheme, host and port, its path without
/// the slashes at its end, a slash, and the suffix without the slashes at its start,
/// with its fragment behind and without its query.
pub proof fn well_known_addresses_are_put_together(
    base: ParsedUrl,
    path: Seq<char>,
    behind: Seq<char>,
    before: Seq<char>,
    suffix: Seq<char>,
)
    requires
        base.parts().scheme == "http"@ || base.parts().scheme == "https"@,
        base.parts().username.len() == 0,
        base.parts().password is None,
        base.parts().path == path + behind,
        forall|k: int| 0 <= k < behind.len() ==> #[trigger] behind[k] == '/',
        forall|k: int| 0 <= k < before.len() ==> #[trigger] before[k] == '/',
        path.len() > 0 ==> path.last() != '/',
        suffix.len() > 0 ==> suffix[0] != '/',
        plain_path(path + seq!['/'] + suffix),
    ensures
        ({
            let parts = base.parts();
            let host = parts.scheme + "://"@ + parts.host->0;
            let port = match parts.port {
                Some(port) => seq![':'] + numeral(port as nat),
                None => Seq::empty(),
            };
            let fragment = match parts.fragment {
                Some(fragment) => seq!['#'] + fragment,
                None => Seq::empty(),
            };
            well_known_url(base, before + suffix) == host + port + (path + seq!['/'] + suffix)
                + fragment
        }),
{
    paths_are_joined_by_one_slash(path, behind, before, suffix);
}

} // verus!
