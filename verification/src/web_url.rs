//! URLs, as far as the rules of this library read them. Parsing and writing them
//! is the work of the `url` crate.

use crate::decimal::numeral;
use crate::text::{copy_text, same_text, to_chars};
use vstd::prelude::*;

verus! {

/// How many characters may go into a URL that is put together here.
///
/// `url::Url` counts positions in 32 bits and panics where a URL that it changes
/// outgrows them. No character takes 256 bytes of a URL, so this many are safe.
pub const MAX_URL_CHARS: usize = 0x100_0000;

/// `url::ParseError`: why a text is not a URL.
#[verifier::external_type_specification]
#[verifier::external_body]
pub struct ExParseError(url::ParseError);

/// The components of a URL.
#[verifier::ext_equal]
pub struct UrlParts {
    pub scheme: Seq<char>,
    pub username: Seq<char>,
    pub password: Option<Seq<char>>,
    pub host: Option<Seq<char>>,
    pub port: Option<u16>,
    pub path: Seq<char>,
    pub query: Option<Seq<char>>,
    pub fragment: Option<Seq<char>>,
}

/// What `url::Url::parse` makes of a text: the components that `scheme`,
/// `username`, `password`, `host_str`, `port`, `path`, `query` and `fragment` give,
/// or nothing where the text is no URL.
pub uninterp spec fn url_parts(text: Seq<char>) -> Option<UrlParts>;

/// The URL `text`, parsed, with `set_path(path)` and `set_query(query)` applied,
/// as text.
pub uninterp spec fn url_changed(
    text: Seq<char>,
    path: Seq<char>,
    query: Option<Seq<char>>,
) -> Seq<char>;

/// The URL that `url::Url::join` makes of `reference` on the parsed URL `base`,
/// as text, or nothing where either is not acceptable.
pub uninterp spec fn url_joined(base: Seq<char>, reference: Seq<char>) -> Option<Seq<char>>;

/// The URL `text`, parsed, with `pairs` appended to its query, as text.
pub uninterp spec fn url_with_pairs(
    text: Seq<char>,
    pairs: Seq<(Seq<char>, Seq<char>)>,
) -> Seq<char>;

/// The components of a URL, as text.
#[derive(Debug)]
pub struct UrlComponents {
    pub scheme: String,
    pub username: String,
    pub password: Option<String>,
    pub host: Option<String>,
    pub port: Option<u16>,
    pub path: String,
    pub query: Option<String>,
    pub fragment: Option<String>,
}

impl DeepView for UrlComponents {
    type V = UrlParts;

    open spec fn deep_view(&self) -> UrlParts {
        UrlParts {
            scheme: self.scheme@,
            username: self.username@,
            password: self.password.deep_view(),
            host: self.host.deep_view(),
            port: self.port,
            path: self.path@,
            query: self.query.deep_view(),
            fragment: self.fragment.deep_view(),
        }
    }
}

impl Clone for UrlComponents {
    fn clone(&self) -> (r: Self)
        ensures
            r.deep_view() == self.deep_view(),
    {
        UrlComponents {
            scheme: self.scheme.clone(),
            username: self.username.clone(),
            password: copy_text(&self.password),
            host: copy_text(&self.host),
            port: self.port,
            path: self.path.clone(),
            query: copy_text(&self.query),
            fragment: copy_text(&self.fragment),
        }
    }
}

/// Calls `url::Url::parse` and reads the components of the URL off it. Claims
/// only that they are a function of the text.
#[verifier::external_body]
fn read_url(text: &str) -> (r: Result<UrlComponents, url::ParseError>)
    ensures
        r is Ok <==> url_parts(text@) is Some,
        r matches Ok(parts) ==> url_parts(text@) == Some(parts.deep_view()),
{
    url::Url::parse(text).map(|u| UrlComponents {
        scheme: u.scheme().to_string(),
        username: u.username().to_string(),
        password: u.password().map(str::to_string),
        host: u.host_str().map(str::to_string),
        port: u.port(),
        path: u.path().to_string(),
        query: u.query().map(str::to_string),
        fragment: u.fragment().map(str::to_string),
    })
}

/// A web address: HTTP or HTTPS, without a user name and a password.
pub open spec fn web_address(parts: UrlParts) -> bool {
    &&& parts.scheme == "http"@ || parts.scheme == "https"@
    &&& parts.username.len() == 0
    &&& parts.password is None
}

/// A character that stands for itself in the path of a URL: printable ASCII but for
/// the space and those that a path escapes or reads otherwise.
pub open spec fn plain_path_char(c: char) -> bool {
    &&& '!' <= c <= '~'
    &&& c != '"' && c != '#' && c != '<' && c != '>' && c != '?'
    &&& c != '`' && c != '{' && c != '}' && c != '\\'
}

/// Whether the escape of a dot stands in `path` at `i`.
pub open spec fn escaped_dot(path: Seq<char>, i: int) -> bool {
    &&& i + 2 < path.len()
    &&& path[i] == '%'
    &&& path[i + 1] == '2'
    &&& path[i + 2] == 'e' || path[i + 2] == 'E'
}

/// Whether the segment after the slash at `i` is `.` or `..`.
pub open spec fn dot_segment(path: Seq<char>, i: int) -> bool {
    &&& i + 1 < path.len()
    &&& path[i + 1] == '.'
    &&& i + 2 == path.len() || path[i + 2] == '/' || (path[i + 2] == '.' && (i + 3 == path.len()
        || path[i + 3] == '/'))
}

/// A path that a URL takes as it is: it starts with a slash, each of its characters
/// stands for itself, no segment is `.` or `..`, and no dot is escaped.
pub open spec fn plain_path(path: Seq<char>) -> bool {
    &&& path.len() > 0
    &&& path[0] == '/'
    &&& forall|i: int| 0 <= i < path.len() ==> plain_path_char(#[trigger] path[i])
    &&& forall|i: int| 0 <= i < path.len() && path[i] == '/' ==> !#[trigger] dot_segment(path, i)
    &&& forall|i: int| 0 <= i < path.len() ==> !#[trigger] escaped_dot(path, i)
}

/// A fragment as it stands at the end of a URL.
pub open spec fn fragment_text(fragment: Option<Seq<char>>) -> Seq<char> {
    match fragment {
        Some(fragment) => seq!['#'] + fragment,
        None => Seq::empty(),
    }
}

/// A port as it stands behind a host.
pub open spec fn port_text(port: Option<u16>) -> Seq<char> {
    match port {
        Some(port) => seq![':'] + numeral(port as nat),
        None => Seq::empty(),
    }
}

/// The origin of a URL that is no `blob`, in ASCII: scheme, host and port of an
/// address on the network, `null` for any other URL.
pub open spec fn origin_text(parts: UrlParts) -> Seq<char> {
    if parts.scheme == "http"@ || parts.scheme == "https"@ || parts.scheme == "ws"@ || parts.scheme
        == "wss"@ || parts.scheme == "ftp"@ {
        parts.scheme + "://"@ + parts.host->0 + port_text(parts.port)
    } else {
        "null"@
    }
}

/// Calls `url::Url::origin` and its `ascii_serialization` on the parsed `text`.
/// Claims that the origin of an HTTP, WebSocket or FTP URL, which always has a host,
/// is its scheme, its host and the port that is not the usual one of the scheme, and
/// that any other is written `null`. `origin` calls itself on what a `blob` URL
/// holds, as deep as these are nested, so `blob` URLs are left out.
#[verifier::external_body]
fn read_origin(text: &str) -> (r: String)
    requires
        url_parts(text@) is Some,
        url_parts(text@)->0.scheme != "blob"@,
    ensures
        r@ == origin_text(url_parts(text@)->0),
{
    url::Url::parse(text).unwrap().origin().ascii_serialization()
}

/// Calls `url::Url::set_path` and `set_query` on the parsed `text`. Claims that the
/// new URL is a function of `text`, `path` and `query`, and that a web address
/// which is given a plain path and no query becomes its origin with that path and
/// its fragment behind it. What escapes are written into other paths and into
/// queries is left unsaid.
#[verifier::external_body]
fn change_url(text: &str, path: &str, query: Option<&str>) -> (r: String)
    requires
        url_parts(text@) is Some,
        query is None ==> text@.len() + path@.len() <= MAX_URL_CHARS,
        query matches Some(q) ==> text@.len() + path@.len() + q@.len() <= MAX_URL_CHARS,
    ensures
        r@ == url_changed(text@, path@, query.deep_view()),
        web_address(url_parts(text@)->0) && plain_path(path@) && query is None ==> r@
            == origin_text(url_parts(text@)->0) + path@ + fragment_text(
            url_parts(text@)->0.fragment,
        ),
{
    let mut u = url::Url::parse(text).unwrap();
    u.set_path(path);
    u.set_query(query);
    u.to_string()
}

/// Calls `url::Url::join` on the parsed `base`. Claims that the outcome is a
/// function of `base` and `reference`, and that there is none where `base` is no
/// URL.
#[verifier::external_body]
pub(crate) fn join_url(base: &str, reference: &str) -> (r: Result<String, url::ParseError>)
    ensures
        r is Ok <==> url_joined(base@, reference@) is Some,
        r matches Ok(url) ==> url_joined(base@, reference@) == Some(url@),
        r is Ok ==> url_parts(base@) is Some,
{
    url::Url::parse(base).and_then(|b| b.join(reference)).map(|u| u.to_string())
}

/// How many characters there are in `pairs`.
pub open spec fn pairs_chars(pairs: Seq<(Seq<char>, Seq<char>)>) -> nat
    decreases pairs.len(),
{
    if pairs.len() == 0 {
        0
    } else {
        pairs_chars(pairs.drop_last()) + pairs.last().0.len() + pairs.last().1.len()
    }
}

/// Calls `extend_pairs` on the `query_pairs_mut` of the parsed `text`. Claims that
/// it fails exactly where `text` is no URL, and that the new URL is a function of
/// `text` and `pairs`.
#[verifier::external_body]
pub(crate) fn append_pairs(text: &str, pairs: &Vec<(String, String)>) -> (r: Result<
    String,
    url::ParseError,
>)
    requires
        pairs_fit(text@, pairs.deep_view()),
    ensures
        r is Ok <==> url_parts(text@) is Some,
        r matches Ok(url) ==> url@ == url_with_pairs(text@, pairs.deep_view()),
{
    let mut u = url::Url::parse(text)?;
    u.query_pairs_mut().extend_pairs(pairs.iter());
    Ok(u.to_string())
}

/// Whether a URL and the pairs that are appended to its query fit together.
pub open spec fn pairs_fit(text: Seq<char>, pairs: Seq<(Seq<char>, Seq<char>)>) -> bool {
    text.len() + pairs_chars(pairs) + pairs.len() <= MAX_URL_CHARS
}

proof fn lemma_pairs_chars_take(pairs: Seq<(Seq<char>, Seq<char>)>, n: int)
    requires
        0 <= n <= pairs.len(),
    ensures
        pairs_chars(pairs.take(n)) <= pairs_chars(pairs),
    decreases pairs.len() - n,
{
    if n < pairs.len() {
        assert(pairs.take(n + 1).drop_last() =~= pairs.take(n));
        lemma_pairs_chars_take(pairs, n + 1);
    } else {
        assert(pairs.take(n) =~= pairs);
    }
}

/// Whether a URL and the pairs that are appended to its query fit together.
pub fn can_append_pairs(text: &str, pairs: &Vec<(String, String)>) -> (r: bool)
    ensures
        r == pairs_fit(text@, pairs.deep_view()),
{
    let ghost all = pairs.deep_view();
    let base = to_chars(text).len();
    if base > MAX_URL_CHARS || pairs.len() > MAX_URL_CHARS - base {
        return false;
    }
    let room: usize = MAX_URL_CHARS - base - pairs.len();
    let mut used: usize = 0;
    for i in 0..pairs.len()
        invariant
            all == pairs.deep_view(),
            room == MAX_URL_CHARS - text@.len() - pairs@.len(),
            used == pairs_chars(all.take(i as int)),
            used <= room,
    {
        let name = to_chars(pairs[i].0.as_str()).len();
        let value = to_chars(pairs[i].1.as_str()).len();
        proof {
            assert(all.take(i + 1).drop_last() =~= all.take(i as int));
            assert(all.take(i + 1).last() == pairs@[i as int].deep_view());
            lemma_pairs_chars_take(all, i + 1);
        }
        if name > room - used || value > room - used - name {
            return false;
        }
        used = used + name + value;
    }
    assert(all.take(all.len() as int) =~= all);
    true
}

/// The URL `text`, whose components are `parts`, at another path and without a
/// query.
pub open spec fn moved(text: Seq<char>, parts: UrlParts, path: Seq<char>) -> Seq<char> {
    if web_address(parts) && plain_path(path) {
        origin_text(parts) + path + fragment_text(parts.fragment)
    } else {
        url_changed(text, path, None)
    }
}

/// How many colons there are in `s`.
pub open spec fn colons(s: Seq<char>) -> nat
    decreases s.len(),
{
    if s.len() == 0 {
        0
    } else {
        colons(s.drop_last()) + if s.last() == ':' {
            1nat
        } else {
            0
        }
    }
}

fn count_colons(s: &str) -> (r: usize)
    ensures
        r == colons(s@),
{
    let chars = to_chars(s);
    let mut n: usize = 0;
    for i in 0..chars.len()
        invariant
            chars@ == s@,
            n == colons(s@.take(i as int)),
            n <= i,
    {
        assert(s@.take(i + 1).drop_last() =~= s@.take(i as int));
        if chars[i] == ':' {
            n = n + 1;
        }
    }
    assert(s@.take(chars@.len() as int) =~= s@);
    n
}

/// The origin of the URL `text`. A `blob` URL has the origin of the URL that is its
/// path, and none, which is written `null`, where its path is no URL.
///
/// The path of a `blob` URL lacks the colon behind the scheme, so it always holds
/// fewer than the URL.
pub open spec fn origin_of(text: Seq<char>) -> Seq<char>
    decreases colons(text),
{
    match url_parts(text) {
        None => "null"@,
        Some(parts) => if parts.scheme != "blob"@ {
            origin_text(parts)
        } else if colons(parts.path) < colons(text) {
            origin_of(parts.path)
        } else {
            "null"@
        },
    }
}

/// A text that is a URL, with its components.
#[derive(Debug)]
pub struct ParsedUrl {
    text: String,
    parts: UrlComponents,
}

impl Clone for ParsedUrl {
    fn clone(&self) -> (r: Self)
        ensures
            r.text() == self.text(),
            r.parts() == self.parts(),
    {
        proof {
            use_type_invariant(self);
        }
        ParsedUrl { text: self.text.clone(), parts: self.parts.clone() }
    }
}

impl ParsedUrl {
    #[verifier::type_invariant]
    spec fn is_parsed(self) -> bool {
        url_parts(self.text@) == Some(self.parts.deep_view())
    }

    /// The text that was parsed.
    pub closed spec fn text(self) -> Seq<char> {
        self.text@
    }

    /// The components of the URL.
    pub closed spec fn parts(self) -> UrlParts {
        self.parts.deep_view()
    }

    /// Whether a path as long as the URL's own with `extra` characters more can be
    /// given to it.
    pub open spec fn has_room(self, extra: int) -> bool {
        self.text().len() + self.parts().path.len() + extra <= MAX_URL_CHARS
    }

    /// Parses a URL.
    pub fn parse(text: &str) -> (r: Result<ParsedUrl, url::ParseError>)
        ensures
            r is Ok <==> url_parts(text@) is Some,
            r matches Ok(url) ==> url.text() == text@ && url_parts(text@) == Some(url.parts()),
    {
        match read_url(text) {
            Ok(parts) => Ok(ParsedUrl { text: text.to_owned(), parts }),
            Err(error) => Err(error),
        }
    }

    /// Whether a path as long as the URL's own with `extra` characters more can be
    /// given to it.
    pub fn has_room_for(&self, extra: usize) -> (r: bool)
        ensures
            r == self.has_room(extra as int),
    {
        let text = to_chars(self.text.as_str()).len();
        let path = to_chars(self.parts.path.as_str()).len();
        text <= MAX_URL_CHARS && path <= MAX_URL_CHARS - text && extra <= MAX_URL_CHARS - text
            - path
    }

    /// The same URL at another path and without a query, as text.
    pub fn at_path(&self, path: &str) -> (r: String)
        requires
            self.text().len() + path@.len() <= MAX_URL_CHARS,
        ensures
            r@ == moved(self.text(), self.parts(), path@),
    {
        proof {
            use_type_invariant(self);
        }
        change_url(self.text.as_str(), path, None)
    }

    /// The origin of the URL, in ASCII.
    pub fn origin(&self) -> (r: String)
        ensures
            r@ == origin_of(self.text()),
    {
        proof {
            use_type_invariant(self);
        }
        let mut text = self.text.clone();
        let mut parts = self.parts.clone();
        loop
            invariant
                url_parts(text@) == Some(parts.deep_view()),
                origin_of(self.text()) == origin_of(text@),
            decreases colons(text@),
        {
            if !same_text(parts.scheme.as_str(), "blob") {
                return read_origin(text.as_str());
            }
            let inner = parts.path;
            if count_colons(inner.as_str()) >= count_colons(text.as_str()) {
                return "null".to_owned();
            }
            match read_url(inner.as_str()) {
                Ok(found) => {
                    text = inner;
                    parts = found;
                },
                Err(_) => {
                    assert(origin_of(inner@) == "null"@);
                    return "null".to_owned();
                },
            }
        }
    }

    /// The components of the URL.
    pub fn components(&self) -> (r: &UrlComponents)
        ensures
            r.deep_view() == self.parts(),
    {
        &self.parts
    }
}

/// The origin of an HTTP, WebSocket or FTP URL is its scheme, its host and the port it
/// names; of a URL that holds another it is that one's; of any other it is `null`.
pub proof fn origins_are_scheme_host_and_port(text: Seq<char>, parts: UrlParts)
    requires
        url_parts(text) == Some(parts),
    ensures
        ({
            let network = parts.scheme == "http"@ || parts.scheme == "https"@ || parts.scheme
                == "ws"@ || parts.scheme == "wss"@ || parts.scheme == "ftp"@;
            &&& network && parts.port is None ==> origin_of(text) == parts.scheme + "://"@
                + parts.host->0
            &&& network && parts.port is Some ==> origin_of(text) == parts.scheme + "://"@
                + parts.host->0 + (seq![':'] + numeral(parts.port->0 as nat))
            &&& !network && parts.scheme != "blob"@ ==> origin_of(text) == "null"@
            &&& parts.scheme == "blob"@ && url_parts(parts.path) is None ==> origin_of(text)
                == "null"@
            &&& parts.scheme == "blob"@ && colons(parts.path) < colons(text) ==> origin_of(text)
                == origin_of(parts.path)
        }),
{
    reveal_strlit("http");
    reveal_strlit("https");
    reveal_strlit("ws");
    reveal_strlit("wss");
    reveal_strlit("ftp");
    reveal_strlit("blob");
    assert("http"@.len() == 4 && "blob"@.len() == 4 && "http"@[0] == 'h' && "blob"@[0] == 'b');
    assert("https"@.len() == 5 && "ws"@.len() == 2 && "wss"@.len() == 3 && "ftp"@.len() == 3);
    let with_host = parts.scheme + "://"@ + parts.host->0;
    assert(with_host + Seq::<char>::empty() =~= with_host);
    reveal_with_fuel(origin_of, 2);
}

/// A web address that is given a plain path becomes its origin with that path and its
/// fragment, if it has one, whatever its query and its path were.
pub proof fn plain_paths_replace_the_old(text: Seq<char>, parts: UrlParts, path: Seq<char>)
    requires
        parts.scheme == "http"@ || parts.scheme == "https"@,
        parts.username.len() == 0,
        parts.password is None,
        plain_path(path),
    ensures
        parts.fragment is None ==> moved(text, parts, path) == origin_text(parts) + path,
        parts.fragment is Some ==> moved(text, parts, path) == origin_text(parts) + path + (
        seq!['#'] + parts.fragment->0),
{
    let whole = origin_text(parts) + path;
    assert(whole + Seq::<char>::empty() =~= whole);
}

/// Any other URL, and any other path, is left to the `url` crate, which is given the
/// path as it is and no query.
pub proof fn other_paths_are_set_without_a_query(
    text: Seq<char>,
    parts: UrlParts,
    path: Seq<char>,
)
    requires
        (parts.scheme != "http"@ && parts.scheme != "https"@) || parts.username.len() > 0
            || parts.password is Some || !plain_path(path),
    ensures
        moved(text, parts, path) == url_changed(text, path, None),
{
}

/// The components of a URL are seen whole.
pub proof fn components_are_seen_whole(parts: UrlComponents)
    ensures
        parts.deep_view().scheme == parts.scheme@,
        parts.deep_view().username == parts.username@,
        parts.deep_view().password == parts.password.deep_view(),
        parts.deep_view().host == parts.host.deep_view(),
        parts.deep_view().port == parts.port,
        parts.deep_view().path == parts.path@,
        parts.deep_view().query == parts.query.deep_view(),
        parts.deep_view().fragment == parts.fragment.deep_view(),
{
}

/// Pairs fit behind a URL exactly where all their characters, and one for each, do; a
/// pair more takes the room of its characters and one.
pub proof fn pairs_take_their_room(
    text: Seq<char>,
    pairs: Seq<(Seq<char>, Seq<char>)>,
    pair: (Seq<char>, Seq<char>),
)
    ensures
        pairs_chars(Seq::empty()) == 0,
        pairs_chars(pairs.push(pair)) == pairs_chars(pairs) + pair.0.len() + pair.1.len(),
        pairs_fit(text, pairs) <==> text.len() + pairs_chars(pairs) + pairs.len() <= 16_777_216,
{
    assert(pairs.push(pair).drop_last() =~= pairs);
}

} // verus!
