//! What can go wrong, and how it is told.

use crate::decimal::{numeral, write_decimal};
use crate::text::{beginnings_are_prefixes, begins_with, to_chars, to_text};
use vstd::prelude::*;
use vstd::slice::slice_subrange;

verus! {

/// How many characters of a server's answer an error quotes.
pub const DETAIL_CHARS: usize = 200;

/// The part of a server's answer that an error quotes.
pub open spec fn quoted_detail(detail: Seq<char>) -> Seq<char> {
    if detail.len() <= DETAIL_CHARS {
        detail
    } else {
        detail.take(DETAIL_CHARS as int)
    }
}

/// The part of a server's answer that an error quotes.
pub fn quote_detail(detail: &str) -> (r: String)
    ensures
        r@ == quoted_detail(detail@),
{
    let chars = to_chars(detail);
    let n: usize = if chars.len() <= DETAIL_CHARS {
        chars.len()
    } else {
        DETAIL_CHARS
    };
    assert(chars@.subrange(0, chars@.len() as int) =~= chars@);
    to_text(slice_subrange(chars.as_slice(), 0, n))
}

/// Why a remote server could not be used.
#[derive(Debug)]
pub enum McpError {
    /// The configuration of a streamable HTTP server has no URL.
    HttpWithoutUrl,
    /// The configuration of an SSE server has no URL.
    SseWithoutUrl,
    /// Credentials are needed and no browser may be opened.
    SignInRequired { server: String },
    /// A browser was opened for this server a short while ago.
    SignInCooldown { server: String },
    /// A streamable HTTP server answered with an error.
    HttpStatus { server: String, status: u16, detail: String },
    /// An SSE server answered with an error.
    SseStatus { server: String, status: u16, detail: String },
    /// The event stream ended before it announced an endpoint.
    NoEndpointAnnounced { server: String },
    /// The endpoint that the event stream announced is no URL.
    InvalidEndpoint { cause: url::ParseError },
    /// There is no endpoint to post messages to.
    NoMessageEndpoint,
    /// The response did not arrive in time.
    ResponseTimeout,
    /// The event stream ended before the response arrived.
    EventStreamClosed,
    /// The URL of the server is no URL.
    InvalidServerUrl { cause: url::ParseError },
    /// No authorization endpoint is known.
    NoAuthorizationEndpoint,
    /// No token endpoint is known.
    NoTokenEndpoint,
    /// The redirect URI is no URL.
    InvalidRedirectUri { cause: url::ParseError },
    /// The redirect URI does not lead back to this machine alone.
    RedirectNotLoopback,
    /// The redirect URI has no port.
    RedirectWithoutPort,
    /// There is no client id and no way to get one.
    NoRegistrationEndpoint,
    /// The provider accepts only clients that it knows.
    RegistrationForbidden,
    /// The provider refused to register the client.
    RegistrationRejected { status: u16, detail: String },
    /// The authorization endpoint is no URL, which its cause alone tells.
    InvalidAuthorizationEndpoint { cause: url::ParseError },
    /// The provider refused to exchange the code for tokens.
    ExchangeFailed { status: u16 },
}

/// The text of an error, without its cause; empty where the cause tells all.
pub open spec fn error_text(error: McpError) -> Seq<char> {
    match error {
        McpError::HttpWithoutUrl => "HTTP MCP server config has no `url`"@,
        McpError::SseWithoutUrl => "SSE MCP server config has no `url`"@,
        McpError::SignInRequired { server } => "MCP server '"@ + server@
            + "' requires OAuth sign-in; run `jcode` interactively to authorize"@,
        McpError::SignInCooldown { server } => "MCP server '"@ + server@
            + "' recently opened an OAuth sign-in window; refusing to open another for 10 minutes"@,
        McpError::HttpStatus { server, status, detail } => "MCP server '"@ + server@
            + "' returned HTTP "@ + numeral(status as nat) + ": "@ + detail@,
        McpError::SseStatus { server, status, detail } => "MCP SSE server '"@ + server@
            + "' returned HTTP "@ + numeral(status as nat) + ": "@ + detail@,
        McpError::NoEndpointAnnounced { server } => "MCP SSE server '"@ + server@
            + "' closed before sending an endpoint"@,
        McpError::InvalidEndpoint { cause } => "MCP SSE server sent an invalid endpoint URL"@,
        McpError::NoMessageEndpoint => "MCP SSE stream has no message endpoint"@,
        McpError::ResponseTimeout => "MCP SSE request timeout"@,
        McpError::EventStreamClosed => "MCP SSE event stream closed"@,
        McpError::InvalidServerUrl { cause } => "Invalid MCP server URL"@,
        McpError::NoAuthorizationEndpoint =>
            "Authorization server did not advertise an authorization_endpoint"@,
        McpError::NoTokenEndpoint => "Authorization server did not advertise a token_endpoint"@,
        McpError::InvalidRedirectUri { cause } => "Invalid OAuth redirect_uri"@,
        McpError::RedirectNotLoopback =>
            "OAuth redirect_uri must be a query-free loopback HTTP URL"@,
        McpError::RedirectWithoutPort => "OAuth redirect_uri must include a port"@,
        McpError::NoRegistrationEndpoint =>
            "Server requires OAuth but supports no dynamic client registration"@,
        McpError::RegistrationForbidden =>
            "Dynamic client registration rejected (403): the OAuth provider does not allow this MCP client; Figma remote MCP currently requires an approved client integration"@,
        McpError::RegistrationRejected { status, detail } =>
            "Dynamic client registration rejected ("@ + numeral(status as nat) + "): "@ + detail@,
        McpError::InvalidAuthorizationEndpoint { cause } => Seq::empty(),
        McpError::ExchangeFailed { status } => "Token exchange failed ("@ + numeral(status as nat)
            + ")"@,
    }
}

fn text_around(before: &str, middle: &str, after: &str) -> (r: String)
    ensures
        r@ == before@ + middle@ + after@,
{
    let mut r = before.to_owned();
    r.append(middle);
    r.append(after);
    r
}

fn status_text(before: &str, server: &str, status: u16, detail: &str) -> (r: String)
    ensures
        r@ == before@ + server@ + "' returned HTTP "@ + numeral(status as nat) + ": "@ + detail@,
{
    let mut r = text_around(before, server, "' returned HTTP ");
    r.append(write_decimal(status as u64).as_str());
    r.append(": ");
    r.append(detail);
    r
}

impl McpError {
    /// The text of the error, without its cause.
    pub fn message(&self) -> (r: String)
        ensures
            r@ == error_text(*self),
    {
        match self {
            McpError::HttpWithoutUrl => "HTTP MCP server config has no `url`".to_owned(),
            McpError::SseWithoutUrl => "SSE MCP server config has no `url`".to_owned(),
            McpError::SignInRequired { server } => text_around(
                "MCP server '",
                server.as_str(),
                "' requires OAuth sign-in; run `jcode` interactively to authorize",
            ),
            McpError::SignInCooldown { server } => text_around(
                "MCP server '",
                server.as_str(),
                "' recently opened an OAuth sign-in window; refusing to open another for 10 minutes",
            ),
            McpError::HttpStatus { server, status, detail } => status_text(
                "MCP server '",
                server.as_str(),
                *status,
                detail.as_str(),
            ),
            McpError::SseStatus { server, status, detail } => status_text(
                "MCP SSE server '",
                server.as_str(),
                *status,
                detail.as_str(),
            ),
            McpError::NoEndpointAnnounced { server } => text_around(
                "MCP SSE server '",
                server.as_str(),
                "' closed before sending an endpoint",
            ),
            McpError::InvalidEndpoint { cause: _ } =>
                "MCP SSE server sent an invalid endpoint URL".to_owned(),
            McpError::NoMessageEndpoint => "MCP SSE stream has no message endpoint".to_owned(),
            McpError::ResponseTimeout => "MCP SSE request timeout".to_owned(),
            McpError::EventStreamClosed => "MCP SSE event stream closed".to_owned(),
            McpError::InvalidServerUrl { cause: _ } => "Invalid MCP server URL".to_owned(),
            McpError::NoAuthorizationEndpoint =>
                "Authorization server did not advertise an authorization_endpoint".to_owned(),
            McpError::NoTokenEndpoint =>
                "Authorization server did not advertise a token_endpoint".to_owned(),
            McpError::InvalidRedirectUri { cause: _ } => "Invalid OAuth redirect_uri".to_owned(),
            McpError::RedirectNotLoopback =>
                "OAuth redirect_uri must be a query-free loopback HTTP URL".to_owned(),
            McpError::RedirectWithoutPort => "OAuth redirect_uri must include a port".to_owned(),
            McpError::NoRegistrationEndpoint =>
                "Server requires OAuth but supports no dynamic client registration".to_owned(),
            McpError::RegistrationForbidden =>
                "Dynamic client registration rejected (403): the OAuth provider does not allow this MCP client; Figma remote MCP currently requires an approved client integration".to_owned(),
            McpError::RegistrationRejected { status, detail } => {
                let mut r = text_around(
                    "Dynamic client registration rejected (",
                    write_decimal(*status as u64).as_str(),
                    "): ",
                );
                r.append(detail.as_str());
                r
            },
            McpError::InvalidAuthorizationEndpoint { cause: _ } => String::new(),
            McpError::ExchangeFailed { status } => text_around(
                "Token exchange failed (",
                write_decimal(*status as u64).as_str(),
                ")",
            ),
        }
    }
}

/// An error quotes an answer from its start, whole where it is short and no further
/// than its two hundredth character else.
pub proof fn details_are_quoted_from_the_start(detail: Seq<char>)
    ensures
        detail.len() <= 200 ==> quoted_detail(detail) == detail,
        detail.len() > 200 ==> quoted_detail(detail).len() == 200,
        forall|i: int|
            0 <= i < quoted_detail(detail).len() ==> #[trigger] quoted_detail(detail)[i]
                == detail[i],
{
}

/// An error that speaks of a server names it between quotes, and one that speaks of an
/// answer ends with its status and what it says, whatever these are.
pub proof fn errors_tell_what_they_are_about(server: String, status: u16, detail: String)
    ensures
        ({
            let told = "' returned HTTP "@ + numeral(status as nat) + ": "@ + detail@;
            &&& error_text(McpError::HttpStatus { server, status, detail }) == "MCP server '"@
                + server@ + told
            &&& error_text(McpError::SseStatus { server, status, detail }) == "MCP SSE server '"@
                + server@ + told
        }),
        begins_with(error_text(McpError::SignInRequired { server }), "MCP server '"@ + server@),
        begins_with(error_text(McpError::SignInCooldown { server }), "MCP server '"@ + server@),
        begins_with(
            error_text(McpError::NoEndpointAnnounced { server }),
            "MCP SSE server '"@ + server@,
        ),
        error_text(McpError::RegistrationRejected { status, detail })
            == "Dynamic client registration rejected ("@ + numeral(status as nat) + ("): "@
            + detail@),
        error_text(McpError::ExchangeFailed { status }) == "Token exchange failed ("@ + (numeral(
            status as nat,
        ) + ")"@),
        error_text(McpError::SignInRequired { server }) == "MCP server '"@ + (server@
            + "' requires OAuth sign-in; run `jcode` interactively to authorize"@),
        error_text(McpError::SignInCooldown { server }) == "MCP server '"@ + (server@
            + "' recently opened an OAuth sign-in window; refusing to open another for 10 minutes"@),
        error_text(McpError::NoEndpointAnnounced { server }) == "MCP SSE server '"@ + (server@
            + "' closed before sending an endpoint"@),
{
    let told = "' returned HTTP "@ + numeral(status as nat) + ": "@ + detail@;
    assert(error_text(McpError::HttpStatus { server, status, detail }) =~= "MCP server '"@ + server@
        + told);
    assert(error_text(McpError::SseStatus { server, status, detail }) =~= "MCP SSE server '"@
        + server@ + told);
    beginnings_are_prefixes(
        "MCP server '"@ + server@,
        "' requires OAuth sign-in; run `jcode` interactively to authorize"@,
        Seq::empty(),
    );
    beginnings_are_prefixes(
        "MCP server '"@ + server@,
        "' recently opened an OAuth sign-in window; refusing to open another for 10 minutes"@,
        Seq::empty(),
    );
    beginnings_are_prefixes(
        "MCP SSE server '"@ + server@,
        "' closed before sending an endpoint"@,
        Seq::empty(),
    );
}

/// An error that is about nothing in particular has its own words, and one whose cause
/// tells all has none.
pub proof fn errors_have_their_own_words(error: McpError)
    ensures
        error is HttpWithoutUrl ==> error_text(error) == "HTTP MCP server config has no `url`"@,
        error is SseWithoutUrl ==> error_text(error) == "SSE MCP server config has no `url`"@,
        error is InvalidEndpoint ==> error_text(error)
            == "MCP SSE server sent an invalid endpoint URL"@,
        error is NoMessageEndpoint ==> error_text(error)
            == "MCP SSE stream has no message endpoint"@,
        error is ResponseTimeout ==> error_text(error) == "MCP SSE request timeout"@,
        error is EventStreamClosed ==> error_text(error) == "MCP SSE event stream closed"@,
        error is InvalidServerUrl ==> error_text(error) == "Invalid MCP server URL"@,
        error is NoAuthorizationEndpoint ==> error_text(error)
            == "Authorization server did not advertise an authorization_endpoint"@,
        error is NoTokenEndpoint ==> error_text(error)
            == "Authorization server did not advertise a token_endpoint"@,
        error is InvalidRedirectUri ==> error_text(error) == "Invalid OAuth redirect_uri"@,
        error is RedirectNotLoopback ==> error_text(error)
            == "OAuth redirect_uri must be a query-free loopback HTTP URL"@,
        error is RedirectWithoutPort ==> error_text(error)
            == "OAuth redirect_uri must include a port"@,
        error is NoRegistrationEndpoint ==> error_text(error)
            == "Server requires OAuth but supports no dynamic client registration"@,
        error is RegistrationForbidden ==> error_text(error)
            == "Dynamic client registration rejected (403): the OAuth provider does not allow this MCP client; Figma remote MCP currently requires an approved client integration"@,
        error is InvalidAuthorizationEndpoint ==> error_text(error).len() == 0,
{
}

} // verus!
