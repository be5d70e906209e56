//! The OpenID Connect flavor of the client: the same flow, with the
//! issuer and the discovery-document endpoints validated as well. The
//! discovery fetch itself (provider metadata, JWKS) is I/O the embedding
//! server performs; the endpoints it found are handed in as plain values.

use vstd::prelude::*;

use crate::oauth::{auth_url_of, effective_scopes, ConfigError, OAuthClient, OAuthConfig};
use crate::text::{check_absolute_url, is_absolute_url};
use crate::trusted::{b64url_of, sha256_str_of};

verus! {

/// The client identity with the provider's OpenID Connect endpoints.
#[derive(Clone, Debug)]
pub struct OpenIDConnectConfig {
    pub client_id: String,
    pub client_secret: String,
    pub authorization_redirect_uri: String,
    pub authorization_endpoint: String,
    pub issuer: String,
    pub token_endpoint: String,
    pub userinfo_endpoint: Option<String>,
    pub jwks_uri: Option<String>,
    pub default_scopes: Option<Vec<String>>,
}

/// A valid OpenID Connect configuration: every URL absolute, and no
/// optional field present but empty.
pub open spec fn oidc_config_valid(c: OpenIDConnectConfig) -> bool {
    &&& is_absolute_url(c.authorization_redirect_uri@)
    &&& is_absolute_url(c.authorization_endpoint@)
    &&& is_absolute_url(c.issuer@)
    &&& is_absolute_url(c.token_endpoint@)
    &&& (c.userinfo_endpoint matches Some(u) ==> is_absolute_url(u@))
    &&& (c.jwks_uri matches Some(j) ==> j@.len() > 0)
    &&& (c.default_scopes matches Some(s) ==> s@.len() > 0)
}

/// The error a rejected configuration gets: the first check that fails,
/// in the order the fields are validated.
pub open spec fn oidc_config_error(c: OpenIDConnectConfig) -> ConfigError {
    if !is_absolute_url(c.authorization_redirect_uri@) {
        ConfigError::InvalidRedirectUri
    } else if !is_absolute_url(c.authorization_endpoint@) {
        ConfigError::InvalidAuthorizationEndpoint
    } else if !is_absolute_url(c.issuer@) {
        ConfigError::InvalidIssuer
    } else if !is_absolute_url(c.token_endpoint@) {
        ConfigError::InvalidTokenEndpoint
    } else if !(c.userinfo_endpoint matches Some(u) ==> is_absolute_url(u@)) {
        ConfigError::InvalidUserinfoEndpoint
    } else {
        ConfigError::InvalidConfiguration
    }
}

fn clone_string_vec(v: &Vec<String>) -> (r: Vec<String>)
    ensures
        r.deep_view() == v.deep_view(),
{
    let mut out: Vec<String> = Vec::new();
    let n = v.len();
    let mut i: usize = 0;
    while i < n
        invariant
            0 <= i <= n,
            n == v@.len(),
            out@.len() == i,
            forall|j: int| 0 <= j < i ==> #[trigger] out@[j]@ == v@[j]@,
        decreases n - i,
    {
        out.push(v[i].clone());
        i += 1;
    }
    proof {
        assert(out.deep_view() =~= v.deep_view());
    }
    out
}

/// The OpenID Connect client.
#[derive(Debug)]
pub struct OpenIDConnectClient {
    config: OpenIDConnectConfig,
    client: OAuthClient,
}

impl OpenIDConnectClient {
    pub closed spec fn spec_config(&self) -> OpenIDConnectConfig {
        self.config
    }

    pub closed spec fn spec_client(&self) -> OAuthClient {
        self.client
    }

    /// The inner client carries exactly the fields of the OpenID Connect
    /// configuration that the flow reads.
    pub open spec fn coherent(&self) -> bool {
        &&& self.spec_client().spec_config().authorization_endpoint@
            == self.spec_config().authorization_endpoint@
        &&& self.spec_client().spec_config().client_id@ == self.spec_config().client_id@
        &&& self.spec_client().spec_config().authorization_redirect_uri@
            == self.spec_config().authorization_redirect_uri@
        &&& (match self.spec_client().spec_config().default_scopes {
            Some(d) => self.spec_config().default_scopes matches Some(d2) && d.deep_view()
                == d2.deep_view(),
            None => self.spec_config().default_scopes is None,
        })
    }

    /// Accepts exactly the valid configurations, naming the first field
    /// that fails.
    pub fn new(config: OpenIDConnectConfig) -> (r: Result<OpenIDConnectClient, ConfigError>)
        ensures
            r matches Ok(c) ==> oidc_config_valid(config) && c.spec_config() == config
                && c.coherent(),
            r matches Err(e) ==> !oidc_config_valid(config) && e == oidc_config_error(config),
    {
        if !check_absolute_url(config.authorization_redirect_uri.as_str()) {
            return Err(ConfigError::InvalidRedirectUri);
        }
        if !check_absolute_url(config.authorization_endpoint.as_str()) {
            return Err(ConfigError::InvalidAuthorizationEndpoint);
        }
        if !check_absolute_url(config.issuer.as_str()) {
            return Err(ConfigError::InvalidIssuer);
        }
        if !check_absolute_url(config.token_endpoint.as_str()) {
            return Err(ConfigError::InvalidTokenEndpoint);
        }
        match &config.userinfo_endpoint {
            Some(u) => {
                if !check_absolute_url(u.as_str()) {
                    return Err(ConfigError::InvalidUserinfoEndpoint);
                }
            },
            None => {},
        }
        let jwks_empty = match &config.jwks_uri {
            Some(j) => j.as_str().unicode_len() == 0,
            None => false,
        };
        let scopes_empty = match &config.default_scopes {
            Some(s) => s.len() == 0,
            None => false,
        };
        if jwks_empty || scopes_empty {
            return Err(ConfigError::InvalidConfiguration);
        }
        let inner_scopes: Option<Vec<String>> = match &config.default_scopes {
            Some(s) => Some(clone_string_vec(s)),
            None => None,
        };
        let oauth_config = OAuthConfig {
            client_id: config.client_id.clone(),
            client_secret: config.client_secret.clone(),
            authorization_redirect_uri: config.authorization_redirect_uri.clone(),
            authorization_endpoint: config.authorization_endpoint.clone(),
            token_endpoint: config.token_endpoint.clone(),
            introspection_endpoint: None,
            redirect_uri: None,
            default_scopes: inner_scopes,
        };
        let client = match OAuthClient::new(oauth_config) {
            Ok(c) => c,
            Err(_) => {
                proof {
                    assert(false);
                }
                return Err(ConfigError::InvalidConfiguration);
            },
        };
        Ok(OpenIDConnectClient { config, client })
    }

    /// Builds a client from endpoints discovered in the provider's
    /// metadata document, which the embedding server fetched and merged
    /// into the configuration.
    pub fn from_provider_metadata(config: OpenIDConnectConfig) -> (r: Result<
        OpenIDConnectClient,
        ConfigError,
    >)
        ensures
            r matches Ok(c) ==> oidc_config_valid(config) && c.spec_config() == config
                && c.coherent(),
            r matches Err(e) ==> !oidc_config_valid(config) && e == oidc_config_error(config),
    {
        Self::new(config)
    }

    /// Begin-authorization: the same request the plain OAuth client
    /// builds, over this client's endpoints.
    pub fn build_authorization_endpoint(&self, scope: Option<Vec<String>>) -> (r: (
        String,
        String,
        String,
    ))
        requires
            self.coherent(),
        ensures
            ({
                let (url, csrf, verifier) = r;
                &&& url@ == auth_url_of(
                    self.spec_config().authorization_endpoint@,
                    self.spec_config().client_id@,
                    self.spec_config().authorization_redirect_uri@,
                    effective_scopes(
                        match scope {
                            Some(v) => Some(v.deep_view()),
                            None => None,
                        },
                        match self.spec_config().default_scopes {
                            Some(d) => Some(d.deep_view()),
                            None => None,
                        },
                    ),
                    csrf@,
                    b64url_of(sha256_str_of(verifier@)),
                )
                &&& (exists|bs: Seq<u8>| bs.len() == 32 && csrf@ == b64url_of(bs))
                &&& (exists|bs: Seq<u8>| bs.len() == 32 && verifier@ == b64url_of(bs))
            }),
    {
        self.client.build_authorization_endpoint(scope)
    }
}

} // verus!
