//! Error kinds of the authentication flow, and the error-page redirect.

use vstd::prelude::*;

use crate::text::pct_of;

verus! {

/// A session cookie whose value is not a valid encoding. Callers treat it
/// as "no session"; it is never surfaced.
#[derive(Clone, Copy, Debug, PartialEq, Eq, Structural)]
pub struct SessionDecodeError;

/// What the callback's checks can reject before any exchange is
/// attempted. Each is terminal: there is no partial success.
#[derive(Clone, Copy, Debug, PartialEq, Eq, Structural)]
pub enum CallbackError {
    MissingCsrf,
    CsrfMismatch,
    MissingPkceVerifier,
    MissingAuthorizationCode,
}

impl CallbackError {
    /// The user-visible message carried to the error page.
    pub open spec fn spec_message(self) -> Seq<char> {
        match self {
            CallbackError::MissingCsrf => "CSRF token not found"@,
            CallbackError::CsrfMismatch => "CSRF token mismatch"@,
            CallbackError::MissingPkceVerifier => "PKCE verifier not found"@,
            CallbackError::MissingAuthorizationCode => "Authorization code not found"@,
        }
    }

    pub fn message(&self) -> (r: &'static str)
        ensures
            r@ == self.spec_message(),
    {
        match self {
            CallbackError::MissingCsrf => "CSRF token not found",
            CallbackError::CsrfMismatch => "CSRF token mismatch",
            CallbackError::MissingPkceVerifier => "PKCE verifier not found",
            CallbackError::MissingAuthorizationCode => "Authorization code not found",
        }
    }
}

/// How a token-endpoint failure is classified, so the controller can tell
/// "drop the session and force re-authorization" from "transient".
#[derive(Clone, Copy, Debug, PartialEq, Eq, Structural)]
pub enum ProviderError {
    InvalidGrant,
    InvalidRequest,
    InvalidClient,
    Transient,
}

impl ProviderError {
    /// The user-visible message for this kind; provider error bodies are
    /// never forwarded to the browser.
    pub open spec fn spec_message(self) -> Seq<char> {
        match self {
            ProviderError::InvalidGrant => "Invalid authorization code"@,
            ProviderError::InvalidRequest => "Invalid PKCE verifier"@,
            ProviderError::InvalidClient => "Invalid client"@,
            ProviderError::Transient => "Token exchange failed"@,
        }
    }

    pub fn message(&self) -> (r: &'static str)
        ensures
            r@ == self.spec_message(),
    {
        match self {
            ProviderError::InvalidGrant => "Invalid authorization code",
            ProviderError::InvalidRequest => "Invalid PKCE verifier",
            ProviderError::InvalidClient => "Invalid client",
            ProviderError::Transient => "Token exchange failed",
        }
    }
}

/// The URL of the error page carrying a (percent-encoded) message.
pub open spec fn error_redirect_of(error_url: Seq<char>, message: Seq<char>) -> Seq<char> {
    error_url + "?&message="@ + message
}

/// Builds the error-page redirect URL; the message is passed through as
/// given, so callers encode it first where it may carry reserved
/// characters.
pub fn build_error_redirect_url(error_url: &str, message: &str) -> (r: String)
    ensures
        r@ == error_redirect_of(error_url@, message@),
{
    let mut out = error_url.to_owned();
    out.append("?&message=");
    out.append(message);
    proof {
        assert(out@ =~= error_redirect_of(error_url@, message@));
    }
    out
}

/// The error redirect for a message that still needs encoding.
pub open spec fn error_redirect_pct_of(error_url: Seq<char>, message: Seq<char>) -> Seq<char> {
    error_redirect_of(error_url, pct_of(message))
}

} // verus!
