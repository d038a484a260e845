//! OAuth 1.0a sign-in against Schoology for a web backend: request signing,
//! the decisions of the three-legged token exchange, single-use request
//! tokens, and sessions with opaque bearer credentials.

// Calls into other crates, each with the contract it relies on.
pub mod primitives;

// Text and numbers.
pub mod codec;
pub mod ids;
pub mod numbers;
pub mod order;

// Signing and the remote API.
pub mod client;
pub mod oauth;
pub mod proto;
pub mod users;

// Tokens, sessions and the service's decisions.
pub mod request_tokens;
pub mod service;
pub mod sessions;
pub mod store;
pub mod types;
