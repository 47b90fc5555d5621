//! OAuth 2.0 (PKCE and dynamic client registration) for remote MCP servers.
//!
//! A 401 from the server points at protected-resource metadata, which points at
//! an authorization server, which the client registers with dynamically and then
//! drives through a loopback PKCE flow.

pub mod authorize;
pub mod challenge;
pub mod discovery;
pub mod flow;
pub mod scope;
pub mod storage;
pub mod tokens;

pub use challenge::resource_metadata_from_challenge;
pub use discovery::{AuthServerMetadata, Discovery, ProtectedResourceMetadata, Search};
pub use flow::{ClientStep, Grant, Plan, TokenRequest};
pub use scope::requested_scope;
pub use storage::{auth_dir, interactive_auth_cooldown_path, token_path, AuthBase, AuthPath};
pub use tokens::{McpOAuthTokens, TokenResponse};
