//! The handler a server holds per process: the client identity plus the
//! cookie policies, with the per-request credential decision. Reading the
//! cookies and deciding is verified here; the refresh call itself is made
//! by the embedding server, which feeds the outcome back.

use vstd::prelude::*;

use crate::cookies::{cookie_of, new_cookie, CookieJar};
use crate::error::ProviderError;
use crate::handlers::{apply_token_response, expiry_of, jar_after_token};
use crate::oauth::{ConfigError, OAuthClient, OAuthConfig, TokenResponse};
use crate::session::SessionModel;
use crate::settings::CookiesConfig;

verus! {

/// What a proxied request should carry, read from the jar alone: no
/// credential, the existing access token, or a refresh to attempt first.
#[derive(Debug)]
pub enum TokenDecision {
    NoCredential,
    UseAccessToken { access_token: String },
    RefreshWith { refresh_token: String },
}

/// The value of the `Authorization` header for a bearer token.
pub fn bearer_authorization_value(token: &str) -> (r: String)
    ensures
        r@ == "Bearer "@ + token@,
{
    let mut out = "Bearer ".to_owned();
    out.append(token);
    out
}

/// The OAuth client paired with the cookie policies it reads and writes.
#[derive(Clone, Debug)]
pub struct OpenIDConnectHttpHandler {
    client: OAuthClient,
    cookies_config: CookiesConfig,
}

impl OpenIDConnectHttpHandler {
    pub closed spec fn spec_client(&self) -> OAuthClient {
        self.client
    }

    pub closed spec fn spec_cookies(&self) -> CookiesConfig {
        self.cookies_config
    }

    /// Builds the handler; accepts exactly the valid client
    /// configurations.
    pub fn new(oauth_config: OAuthConfig, cookies_config: CookiesConfig) -> (r: Result<
        Self,
        ConfigError,
    >)
        ensures
            r matches Ok(h) ==> OAuthClient::config_valid(oauth_config)
                && h.spec_client().spec_config() == oauth_config && h.spec_cookies()
                == cookies_config,
            r matches Err(e) ==> !OAuthClient::config_valid(oauth_config) && e == (
            if !crate::text::is_absolute_url(oauth_config.authorization_redirect_uri@) {
                ConfigError::InvalidRedirectUri
            } else if !crate::text::is_absolute_url(oauth_config.authorization_endpoint@) {
                ConfigError::InvalidAuthorizationEndpoint
            } else {
                ConfigError::InvalidTokenEndpoint
            }),
    {
        let client = match OAuthClient::new(oauth_config) {
            Ok(c) => c,
            Err(e) => {
                return Err(e);
            },
        };
        Ok(Self { client, cookies_config })
    }

    pub fn client(&self) -> (r: &OAuthClient)
        ensures
            r == self.spec_client(),
    {
        &self.client
    }

    /// Begin-authorization over this handler's policies: both cookies
    /// set, and the provider URL bound to their values.
    pub fn authorize(&self, jar: CookieJar, scope: Option<Vec<String>>) -> (r: (CookieJar, String))
        requires
            jar.wf(),
            self.spec_cookies().wf(),
        ensures
            r.0.wf(),
            ({
                let cn = self.spec_cookies().oauth_csrf.name@;
                let pn = self.spec_cookies().oauth_pkce.name@;
                let csrf = r.0@[cn].value;
                let verifier = r.0@[pn].value;
                &&& r.0@.contains_key(cn)
                &&& r.0@.contains_key(pn)
                &&& r.0@ == jar@.insert(cn, cookie_of(self.spec_cookies().oauth_csrf, csrf)).insert(
                    pn,
                    cookie_of(self.spec_cookies().oauth_pkce, verifier),
                )
                &&& r.1@ == crate::oauth::auth_url_of(
                    self.spec_client().spec_config().authorization_endpoint@,
                    self.spec_client().spec_config().client_id@,
                    self.spec_client().spec_config().authorization_redirect_uri@,
                    crate::oauth::effective_scopes(
                        match scope {
                            Some(v) => Some(v.deep_view()),
                            None => None,
                        },
                        match self.spec_client().spec_config().default_scopes {
                            Some(d) => Some(d.deep_view()),
                            None => None,
                        },
                    ),
                    csrf,
                    crate::trusted::b64url_of(crate::trusted::sha256_str_of(verifier)),
                )
                &&& (exists|bs: Seq<u8>| bs.len() == 32 && csrf == crate::trusted::b64url_of(bs))
                &&& (exists|bs: Seq<u8>|
                    bs.len() == 32 && verifier == crate::trusted::b64url_of(bs))
            }),
    {
        let (url, csrf, verifier) = self.client.build_authorization_endpoint(scope);
        let jar1 = jar.add(new_cookie(self.cookies_config.oauth_csrf.to_owned_config(), csrf));
        let jar2 = jar1.add(new_cookie(self.cookies_config.oauth_pkce.to_owned_config(), verifier));
        (jar2, url)
    }

    /// Applies a successful code exchange to the jar: access, refresh and
    /// session cookies per this handler's policies.
    pub fn exchange_code(&self, jar: CookieJar, token: &TokenResponse) -> (r: CookieJar)
        requires
            jar.wf(),
            self.spec_cookies().wf(),
        ensures
            r.wf(),
            exists|m: SessionModel| #![auto]
                m.wf() && m.id.len() == 64 && m.exp == expiry_of(m.iat, token.expires_in) && r@
                    == jar_after_token(self.spec_cookies(), jar@, *token, m),
    {
        apply_token_response(&self.cookies_config, jar, token)
    }

    /// The per-request credential decision, from the jar alone, which is
    /// returned unchanged: no access-token cookie means the request goes
    /// through unauthenticated; an access token with no refresh token is
    /// used as it stands; with both present a refresh is attempted.
    pub fn get_or_refresh_token(&self, jar: CookieJar) -> (r: (CookieJar, TokenDecision))
        requires
            jar.wf(),
        ensures
            r.0.wf(),
            r.0@ == jar@,
            ({
                let an = self.spec_cookies().access_token.name@;
                let rn = self.spec_cookies().refresh_token.name@;
                &&& (!jar@.contains_key(an) ==> r.1 is NoCredential)
                &&& (jar@.contains_key(an) && !jar@.contains_key(rn) ==> (
                r.1 matches TokenDecision::UseAccessToken { access_token } && access_token@
                    == jar@[an].value))
                &&& (jar@.contains_key(an) && jar@.contains_key(rn) ==> (
                r.1 matches TokenDecision::RefreshWith { refresh_token } && refresh_token@
                    == jar@[rn].value))
            }),
    {
        let access: Option<String> = match jar.get(self.cookies_config.access_token.name.as_str()) {
            Some(c) => Some(c.value.clone()),
            None => None,
        };
        let refresh: Option<String> = match jar.get(
            self.cookies_config.refresh_token.name.as_str(),
        ) {
            Some(c) => Some(c.value.clone()),
            None => None,
        };
        let decision = match access {
            None => TokenDecision::NoCredential,
            Some(access_token) => match refresh {
                None => TokenDecision::UseAccessToken { access_token },
                Some(refresh_token) => TokenDecision::RefreshWith { refresh_token },
            },
        };
        (jar, decision)
    }

    /// Applies a refresh outcome: on success the access-token cookie is
    /// overwritten with the new token, which is returned; on failure the
    /// request degrades to unauthenticated — no token, jar unchanged —
    /// rather than reusing a possibly expired one.
    pub fn refresh_access_token(&self, jar: CookieJar, outcome: &Result<
        TokenResponse,
        ProviderError,
    >) -> (r: (CookieJar, Option<String>))
        requires
            jar.wf(),
        ensures
            r.0.wf(),
            outcome matches Ok(t) ==> r.0@ == jar@.insert(
                self.spec_cookies().access_token.name@,
                cookie_of(self.spec_cookies().access_token, t.access_token@),
            ) && (r.1 matches Some(tok) && tok@ == t.access_token@),
            outcome is Err ==> r.0@ == jar@ && r.1 is None,
    {
        match outcome {
            Ok(t) => {
                let token = t.access_token.clone();
                let jar2 = jar.add(
                    new_cookie(self.cookies_config.access_token.to_owned_config(), token.clone()),
                );
                (jar2, Some(token))
            },
            Err(_) => (jar, None),
        }
    }
}

} // verus!
