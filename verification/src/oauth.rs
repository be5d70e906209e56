//! The OAuth client: the registered identity, the authorization request
//! with its CSRF/PKCE binding, and the classification of token-endpoint
//! failures. The two server-to-server calls themselves are performed by
//! the embedding server; their outcomes are handed back as plain values.

use vstd::prelude::*;

use crate::error::ProviderError;
use crate::text::{
    check_absolute_url, contains_seq, contains_str, is_absolute_url, join_space, join_with_space,
    pct_encode, pct_of,
};
use crate::trusted::{
    b64url_of, base64url_encode, is_b64url_char, secure_random_bytes, sha256_str, sha256_str_of,
};

verus! {

/// The registered client identity and the provider's endpoints.
/// Immutable after construction and shared read-only across requests.
#[derive(Clone, Debug)]
pub struct OAuthConfig {
    pub client_id: String,
    pub client_secret: String,
    pub authorization_redirect_uri: String,
    pub authorization_endpoint: String,
    pub token_endpoint: String,
    pub introspection_endpoint: Option<String>,
    pub redirect_uri: Option<String>,
    pub default_scopes: Option<Vec<String>>,
}

/// A rejected client configuration, by the first field that fails.
#[derive(Clone, Copy, Debug, PartialEq, Eq, Structural)]
pub enum ConfigError {
    InvalidRedirectUri,
    InvalidAuthorizationEndpoint,
    InvalidIssuer,
    InvalidTokenEndpoint,
    InvalidUserinfoEndpoint,
    InvalidConfiguration,
}

impl ConfigError {
    pub open spec fn spec_message(self) -> Seq<char> {
        match self {
            ConfigError::InvalidRedirectUri => "Failed to parse redirect uri"@,
            ConfigError::InvalidAuthorizationEndpoint => "Failed to parse authorization url"@,
            ConfigError::InvalidIssuer => "Failed to parse issuer"@,
            ConfigError::InvalidTokenEndpoint => "Failed to parse token url"@,
            ConfigError::InvalidUserinfoEndpoint => "Failed to parse userinfo url"@,
            ConfigError::InvalidConfiguration => "Invalid configuration"@,
        }
    }

    pub fn message(&self) -> (r: &'static str)
        ensures
            r@ == self.spec_message(),
    {
        match self {
            ConfigError::InvalidRedirectUri => "Failed to parse redirect uri",
            ConfigError::InvalidAuthorizationEndpoint => "Failed to parse authorization url",
            ConfigError::InvalidIssuer => "Failed to parse issuer",
            ConfigError::InvalidTokenEndpoint => "Failed to parse token url",
            ConfigError::InvalidUserinfoEndpoint => "Failed to parse userinfo url",
            ConfigError::InvalidConfiguration => "Invalid configuration",
        }
    }
}

/// What a successful token-endpoint call returned: the bearer token, the
/// rotated refresh token if the provider sent one, and the lifetime in
/// seconds if it stated one.
#[derive(Clone, Debug)]
pub struct TokenResponse {
    pub access_token: String,
    pub refresh_token: Option<String>,
    pub expires_in: Option<u64>,
}

/// The scopes a request asks for: the requested ones, else the configured
/// defaults, else none.
pub open spec fn effective_scopes(
    requested: Option<Seq<Seq<char>>>,
    dflt: Option<Seq<Seq<char>>>,
) -> Seq<Seq<char>> {
    match requested {
        Some(s) => s,
        None => match dflt {
            Some(d) => d,
            None => Seq::<Seq<char>>::empty(),
        },
    }
}

/// The provider authorization URL: `state` carries the CSRF token, and
/// `code_challenge` the (base64url, SHA-256) challenge of the PKCE
/// verifier.
pub open spec fn auth_url_of(
    endpoint: Seq<char>,
    client_id: Seq<char>,
    redirect_uri: Seq<char>,
    scopes: Seq<Seq<char>>,
    csrf: Seq<char>,
    challenge: Seq<char>,
) -> Seq<char> {
    endpoint + "?response_type=code&client_id="@ + pct_of(client_id) + "&state="@ + csrf
        + "&code_challenge="@ + challenge + "&code_challenge_method=S256&redirect_uri="@ + pct_of(
        redirect_uri,
    ) + "&scope="@ + pct_of(join_space(scopes))
}

/// Law: the authorization URL pins the CSRF token and the challenge
/// down — two URLs built over the same configuration and scopes are
/// equal only if they carry the same `state` and the same
/// `code_challenge`. A URL cannot smuggle one binding while a different
/// one was drawn.
pub proof fn lemma_auth_url_determines_binding(
    endpoint: Seq<char>,
    client_id: Seq<char>,
    redirect_uri: Seq<char>,
    scopes: Seq<Seq<char>>,
    csrf1: Seq<char>,
    ch1: Seq<char>,
    csrf2: Seq<char>,
    ch2: Seq<char>,
)
    requires
        forall|i: int| 0 <= i < csrf1.len() ==> is_b64url_char(#[trigger] csrf1[i]),
        forall|i: int| 0 <= i < ch1.len() ==> is_b64url_char(#[trigger] ch1[i]),
        forall|i: int| 0 <= i < csrf2.len() ==> is_b64url_char(#[trigger] csrf2[i]),
        forall|i: int| 0 <= i < ch2.len() ==> is_b64url_char(#[trigger] ch2[i]),
        auth_url_of(endpoint, client_id, redirect_uri, scopes, csrf1, ch1) == auth_url_of(
            endpoint,
            client_id,
            redirect_uri,
            scopes,
            csrf2,
            ch2,
        ),
    ensures
        csrf1 == csrf2,
        ch1 == ch2,
{
    reveal_strlit("&code_challenge=");
    reveal_strlit("&code_challenge_method=S256&redirect_uri=");
    let u1 = auth_url_of(endpoint, client_id, redirect_uri, scopes, csrf1, ch1);
    let prefix = endpoint + "?response_type=code&client_id="@ + pct_of(client_id) + "&state="@;
    let mid = "&code_challenge="@;
    let tail = "&code_challenge_method=S256&redirect_uri="@ + pct_of(redirect_uri) + "&scope="@
        + pct_of(join_space(scopes));
    assert(u1 =~= prefix + csrf1 + mid + ch1 + tail);
    assert(u1 =~= prefix + csrf2 + mid + ch2 + tail);
    let w = u1.subrange(prefix.len() as int, u1.len() as int);
    assert(w =~= csrf1 + mid + ch1 + tail);
    assert(w =~= csrf2 + mid + ch2 + tail);
    assert(mid[0] == '&');
    assert(tail[0] == '&');
    lemma_token_prefix(w, csrf1);
    lemma_token_prefix(w, csrf2);
    assert(csrf1.len() == csrf2.len());
    assert forall|i: int| 0 <= i < csrf1.len() implies csrf1[i] == csrf2[i] by {
        assert(w[i] == (csrf1 + mid + ch1 + tail)[i]);
        assert(w[i] == (csrf2 + mid + ch2 + tail)[i]);
    }
    assert(csrf1 =~= csrf2);
    let w2 = w.subrange(csrf1.len() as int + mid.len() as int, w.len() as int);
    assert(w2 =~= ch1 + tail);
    assert(w2 =~= ch2 + tail);
    lemma_token_prefix(w2, ch1);
    lemma_token_prefix(w2, ch2);
    assert(ch1.len() == ch2.len());
    assert forall|i: int| 0 <= i < ch1.len() implies ch1[i] == ch2[i] by {
        assert(w2[i] == (ch1 + tail)[i]);
        assert(w2[i] == (ch2 + tail)[i]);
    }
    assert(ch1 =~= ch2);
}

/// A URL-safe token standing at the front of `w` and followed by `&`
/// ends exactly at the first `&` of `w`.
proof fn lemma_token_prefix(w: Seq<char>, token: Seq<char>)
    requires
        forall|i: int| 0 <= i < token.len() ==> is_b64url_char(#[trigger] token[i]),
        token.len() < w.len(),
        forall|i: int| 0 <= i < token.len() ==> w[i] == token[i],
        w[token.len() as int] == '&',
    ensures
        token.len() == crate::text::first_index_of(w, '&'),
{
    assert forall|j: int| 0 <= j < token.len() implies w[j] != '&' by {
        assert(is_b64url_char(token[j]));
    }
    crate::text::lemma_first_index_unique(w, '&', token.len() as int);
}

/// The S256 code challenge of a PKCE verifier.
pub fn pkce_challenge(verifier: &str) -> (r: String)
    ensures
        r@ == b64url_of(sha256_str_of(verifier@)),
{
    let digest = sha256_str(verifier);
    base64url_encode(digest.as_slice())
}

/// Classifies a token-endpoint failure by the provider's error code in
/// its message, checked in this order.
pub fn classify_provider_error(msg: &str) -> (r: ProviderError)
    ensures
        contains_seq(msg@, "invalid_grant"@) ==> r == ProviderError::InvalidGrant,
        !contains_seq(msg@, "invalid_grant"@) && contains_seq(msg@, "invalid_request"@) ==> r
            == ProviderError::InvalidRequest,
        !contains_seq(msg@, "invalid_grant"@) && !contains_seq(msg@, "invalid_request"@)
            && contains_seq(msg@, "invalid_client"@) ==> r == ProviderError::InvalidClient,
        !contains_seq(msg@, "invalid_grant"@) && !contains_seq(msg@, "invalid_request"@)
            && !contains_seq(msg@, "invalid_client"@) ==> r == ProviderError::Transient,
{
    if contains_str(msg, "invalid_grant") {
        ProviderError::InvalidGrant
    } else if contains_str(msg, "invalid_request") {
        ProviderError::InvalidRequest
    } else if contains_str(msg, "invalid_client") {
        ProviderError::InvalidClient
    } else {
        ProviderError::Transient
    }
}

/// The OAuth client.
#[derive(Clone, Debug)]
pub struct OAuthClient {
    config: OAuthConfig,
}

impl OAuthClient {
    /// The configuration this client was built from.
    pub closed spec fn spec_config(&self) -> OAuthConfig {
        self.config
    }

    /// A valid configuration: the three URLs the flow depends on are
    /// absolute.
    pub open spec fn config_valid(config: OAuthConfig) -> bool {
        &&& is_absolute_url(config.authorization_redirect_uri@)
        &&& is_absolute_url(config.authorization_endpoint@)
        &&& is_absolute_url(config.token_endpoint@)
    }

    /// Accepts exactly the valid configurations, naming the first URL
    /// that fails.
    pub fn new(config: OAuthConfig) -> (r: Result<OAuthClient, ConfigError>)
        ensures
            r matches Ok(client) ==> Self::config_valid(config) && client.spec_config() == config,
            r matches Err(e) ==> !Self::config_valid(config) && e == (if !is_absolute_url(
                config.authorization_redirect_uri@,
            ) {
                ConfigError::InvalidRedirectUri
            } else if !is_absolute_url(config.authorization_endpoint@) {
                ConfigError::InvalidAuthorizationEndpoint
            } else {
                ConfigError::InvalidTokenEndpoint
            }),
    {
        if !check_absolute_url(config.authorization_redirect_uri.as_str()) {
            return Err(ConfigError::InvalidRedirectUri);
        }
        if !check_absolute_url(config.authorization_endpoint.as_str()) {
            return Err(ConfigError::InvalidAuthorizationEndpoint);
        }
        if !check_absolute_url(config.token_endpoint.as_str()) {
            return Err(ConfigError::InvalidTokenEndpoint);
        }
        Ok(OAuthClient { config })
    }

    /// Builds the authorization request: a fresh CSRF token, a fresh PKCE
    /// verifier (each 256 bits of entropy, base64url), and the provider
    /// URL binding both — `state` equals the returned CSRF token, and the
    /// challenge in the URL is the SHA-256 digest of the returned
    /// verifier.
    pub fn build_authorization_endpoint(&self, scope: Option<Vec<String>>) -> (r: (
        String,
        String,
        String,
    ))
        ensures
            ({
                let (url, csrf, verifier) = r;
                &&& url@ == auth_url_of(
                    self.spec_config().authorization_endpoint@,
                    self.spec_config().client_id@,
                    self.spec_config().authorization_redirect_uri@,
                    effective_scopes(
                        match scope {
                            Some(v) => Some(v.deep_view()),
                            None => None,
                        },
                        match self.spec_config().default_scopes {
                            Some(d) => Some(d.deep_view()),
                            None => None,
                        },
                    ),
                    csrf@,
                    b64url_of(sha256_str_of(verifier@)),
                )
                &&& (exists|bs: Seq<u8>| bs.len() == 32 && csrf@ == b64url_of(bs))
                &&& (exists|bs: Seq<u8>| bs.len() == 32 && verifier@ == b64url_of(bs))
                &&& (forall|i: int| 0 <= i < csrf@.len() ==> is_b64url_char(#[trigger] csrf@[i]))
                &&& (forall|i: int|
                    0 <= i < verifier@.len() ==> is_b64url_char(#[trigger] verifier@[i]))
            }),
    {
        let csrf_bytes = secure_random_bytes(32);
        let csrf = base64url_encode(csrf_bytes.as_slice());
        let verifier_bytes = secure_random_bytes(32);
        let verifier = base64url_encode(verifier_bytes.as_slice());
        let challenge = pkce_challenge(verifier.as_str());
        let joined = match &scope {
            Some(v) => join_with_space(v),
            None => match &self.config.default_scopes {
                Some(d) => join_with_space(d),
                None => String::new(),
            },
        };
        let mut url = self.config.authorization_endpoint.clone();
        url.append("?response_type=code&client_id=");
        let enc_client_id = pct_encode(self.config.client_id.as_str());
        url.append(enc_client_id.as_str());
        url.append("&state=");
        url.append(csrf.as_str());
        url.append("&code_challenge=");
        url.append(challenge.as_str());
        url.append("&code_challenge_method=S256&redirect_uri=");
        let enc_redirect = pct_encode(self.config.authorization_redirect_uri.as_str());
        url.append(enc_redirect.as_str());
        url.append("&scope=");
        let enc_scope = pct_encode(joined.as_str());
        url.append(enc_scope.as_str());
        proof {
            assert(join_space(Seq::<Seq<char>>::empty()) =~= Seq::<char>::empty());
            assert(url@ =~= auth_url_of(
                self.spec_config().authorization_endpoint@,
                self.spec_config().client_id@,
                self.spec_config().authorization_redirect_uri@,
                effective_scopes(
                    match scope {
                        Some(v) => Some(v.deep_view()),
                        None => None,
                    },
                    match self.spec_config().default_scopes {
                        Some(d) => Some(d.deep_view()),
                        None => None,
                    },
                ),
                csrf@,
                b64url_of(sha256_str_of(verifier@)),
            ));
            assert(csrf_bytes@.len() == 32 && csrf@ == b64url_of(csrf_bytes@));
            assert(verifier_bytes@.len() == 32 && verifier@ == b64url_of(verifier_bytes@));
        }
        (url, csrf, verifier)
    }
}

} // verus!
