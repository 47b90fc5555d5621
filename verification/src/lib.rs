//! The rules by which a client talks to remote MCP servers: framing of event
//! streams, the request and retry logic of the two HTTP transports, OAuth
//! discovery and authorization, and the check that a schema's regular
//! expression stays inside a dialect without backtracking.

pub mod clock;
pub mod decimal;
pub mod error;
pub mod http;
pub mod oauth;
pub mod protocol;
pub mod regex_dialect;
pub mod sse;
pub mod text;
pub mod transport;
pub mod web_url;
