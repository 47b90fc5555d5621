//! Streamable HTTP: one `POST` per JSON-RPC message, answered by a JSON body or
//! by an event stream.

pub mod cooldown;
pub mod decoder;
pub mod transport;

pub use cooldown::{interactive_auth_allowed, non_interactive, AuthStarts, SignIn};
pub use decoder::SseDecoder;
pub use transport::{is_auth_error_text, HttpExchange, HttpTransport};
