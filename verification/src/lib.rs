//! An authenticating reverse-proxy core: the OAuth2 authorization-code flow
//! with PKCE, credential cookies, and the session record lifecycle.
//!
//! The crate models the browser's cookie jar as an immutable mapping and
//! verifies the flow decisions made on top of it; the network legs (the
//! token-endpoint calls, the proxied request) are driven by the embedding
//! server, which feeds their outcomes back into the verified functions.

pub mod cookies;
pub mod error;
pub mod handlers;
pub mod http;
pub mod oauth;
pub mod openidconnect;
pub mod session;
pub mod settings;
pub mod text;
pub mod trusted;
