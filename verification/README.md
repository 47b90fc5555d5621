# mcp_remote

The rules by which a client talks to remote MCP servers, written in Verus and
proved against their contracts, and the network code around them.

## Layout

`src/` is the verified library.

- `http`: streamable HTTP. `decoder` reads a response out of an event stream,
  `transport` holds the state of a connection and the course of one exchange,
  `cooldown` limits how often a browser is opened.
- `sse`: the older transport with one long-lived stream. `decoder` reads named
  events, `transport` holds the endpoint, the streams and whoever waits for a
  response.
- `oauth`: challenges, discovery, scopes, the choices and the course of the
  authorization code flow, credentials and where they are stored.
- `regex_dialect`: which regular expressions of a schema need backtracking.
- `transport`, `protocol`, `error`: what the parts share.
- `text`, `decimal`, `web_url`, `clock`: text, numbers, URLs and the time.

`app/` sends the requests, reads and writes the files and runs the loops. It
hands every answer to the library, which says what to do next. PKCE values, the
callback of the browser and the output to the user come from a `Host` that the
surrounding program provides.

`tests/` runs the library with the real `url` and `chrono` crates.

## What is proved

Each function states what it returns or changes. Beyond that, public proof
functions state what holds of several calls together: that it makes no difference
how a stream is cut into chunks, that an exchange authenticates at most once, that
the end of an old stream leaves a newer one alone, that a saved client is used only
with the redirect URI it was registered for, and more.

What is not proved is the behaviour of the functions that are called outside the
library: `url`'s parser, origin and setters, `chrono`'s clock, `String::push` and
`String::from_utf8_lossy`. Each stands behind one declaration
that says what is taken for granted.
