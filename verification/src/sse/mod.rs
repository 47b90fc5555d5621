//! The older SSE transport: one long-lived event stream for what the server
//! sends, and a `POST` to an endpoint that the stream announces.

pub mod decoder;
pub mod transport;

pub use decoder::{SseDecoder, SseEvent, SseFrame};
pub use transport::{PostExchange, SseTransport, StreamExchange};
