use baffao::cookies::{new_cookie, CookieJar};
use baffao::error::{build_error_redirect_url, ProviderError};
use baffao::handlers::{
    oauth2_authorize, oauth2_callback_complete, oauth2_callback_verify, AuthorizationCallbackQuery,
    AuthorizationQuery, CallbackStep,
};
use baffao::http::{bearer_authorization_value, OpenIDConnectHttpHandler, TokenDecision};
use baffao::oauth::{classify_provider_error, pkce_challenge, ConfigError, OAuthClient, OAuthConfig, TokenResponse};
use baffao::openidconnect::{OpenIDConnectClient, OpenIDConnectConfig};
use baffao::session::Session;
use baffao::settings::{CookieConfig, CookiesConfig, SameSite, ServerConfig};
use baffao::text::{parse_i64_dec, pct_encode, u64_to_dec};

fn cookie(name: &str) -> CookieConfig {
    CookieConfig {
        name: name.to_string(),
        domain: "localhost".to_string(),
        secure: true,
        http_only: true,
        same_site: SameSite::Lax,
    }
}

fn cookies_cfg() -> CookiesConfig {
    CookiesConfig {
        oauth_csrf: cookie("oauth_csrf"),
        oauth_pkce: cookie("oauth_pkce"),
        access_token: cookie("access_token"),
        refresh_token: cookie("refresh_token"),
        session: cookie("session"),
    }
}

fn server_cfg() -> ServerConfig {
    ServerConfig {
        host: "localhost".to_string(),
        port: 3000,
        base_url: "https://proxy.example.com:8443/app".to_string(),
        cookies: cookies_cfg(),
        error_url: "https://proxy.example.com/error".to_string(),
    }
}

fn oauth_cfg() -> OAuthConfig {
    OAuthConfig {
        client_id: "my client".to_string(),
        client_secret: "SECRET-REDACTED".to_string(),
        authorization_redirect_uri: "https://proxy.example.com/oauth/callback".to_string(),
        authorization_endpoint: "https://auth.example.com/authorize".to_string(),
        token_endpoint: "https://auth.example.com/token".to_string(),
        introspection_endpoint: None,
        redirect_uri: None,
        default_scopes: Some(vec!["openid".to_string(), "profile".to_string()]),
    }
}

#[test]
fn authorize_sets_bound_cookies() {
    // GET /oauth/authorize with no scope: a 307 at the configured
    // endpoint, with HttpOnly+Secure csrf and pkce cookies whose values
    // the URL carries.
    let client = OAuthClient::new(oauth_cfg()).unwrap();
    let config = server_cfg();
    let (jar, status, url) = oauth2_authorize(&client, &config, CookieJar::new(), None);

    assert_eq!(status, 307);
    assert!(url.starts_with("https://auth.example.com/authorize?response_type=code&client_id=my%20client&state="));

    let csrf = jar.get("oauth_csrf").unwrap();
    let pkce = jar.get("oauth_pkce").unwrap();
    assert_eq!(csrf.http_only(), Some(true));
    assert_eq!(csrf.secure(), Some(true));
    assert_eq!(pkce.http_only(), Some(true));
    assert_eq!(pkce.secure(), Some(true));

    // the URL's state is the csrf cookie, its challenge the digest of
    // the pkce cookie
    let expected = format!(
        "&state={}&code_challenge={}&code_challenge_method=S256",
        csrf.value(),
        pkce_challenge(pkce.value())
    );
    assert!(url.contains(&expected), "{url}");
    assert!(url.ends_with("&scope=openid%20profile"));
}

#[test]
fn authorize_splits_requested_scopes() {
    let client = OAuthClient::new(oauth_cfg()).unwrap();
    let config = server_cfg();
    let query = Some(AuthorizationQuery { scope: Some("a b".to_string()) });
    let (_, _, url) = oauth2_authorize(&client, &config, CookieJar::new(), query);
    assert!(url.ends_with("&scope=a%20b"));
}

#[test]
fn callback_without_csrf_cookie_fails() {
    // GET /oauth/callback?code=abc&state=X with no csrf cookie sent
    let config = server_cfg();
    let query = AuthorizationCallbackQuery { code: "abc".to_string(), state: "X".to_string() };
    let (jar, step) = oauth2_callback_verify(&config, CookieJar::new(), &query);
    match step {
        CallbackStep::Failed { status, location } => {
            assert_eq!(status, 307);
            assert_eq!(
                location,
                "https://proxy.example.com/error?&message=CSRF%20token%20not%20found"
            );
        },
        _ => panic!("expected a failure"),
    }
    assert!(jar.get("access_token").is_none());
}

#[test]
fn callback_state_mismatch_fails() {
    let config = server_cfg();
    for (cookie_value, state) in [("Y", "X"), ("", "X"), ("Y", "")] {
        let jar = CookieJar::new()
            .add(new_cookie(cookie("oauth_csrf"), cookie_value.to_string()))
            .add(new_cookie(cookie("oauth_pkce"), "V".to_string()));
        let query =
            AuthorizationCallbackQuery { code: "abc".to_string(), state: state.to_string() };
        let (jar, step) = oauth2_callback_verify(&config, jar, &query);
        match step {
            CallbackStep::Failed { status, location } => {
                assert_eq!(status, 307);
                assert!(location.ends_with("?&message=CSRF%20token%20mismatch"));
            },
            _ => panic!("expected a failure"),
        }
        // cleanup happens on the failure path too
        assert!(jar.get("oauth_csrf").is_none());
        assert!(jar.get("oauth_pkce").is_none());
    }
}

#[test]
fn callback_missing_pkce_and_code() {
    let config = server_cfg();

    let jar = CookieJar::new().add(new_cookie(cookie("oauth_csrf"), "X".to_string()));
    let query = AuthorizationCallbackQuery { code: "abc".to_string(), state: "X".to_string() };
    let (_, step) = oauth2_callback_verify(&config, jar, &query);
    match step {
        CallbackStep::Failed { location, .. } => {
            assert!(location.ends_with("?&message=PKCE%20verifier%20not%20found"));
        },
        _ => panic!("expected a failure"),
    }

    let jar = CookieJar::new()
        .add(new_cookie(cookie("oauth_csrf"), "X".to_string()))
        .add(new_cookie(cookie("oauth_pkce"), "V".to_string()));
    let query = AuthorizationCallbackQuery { code: String::new(), state: "X".to_string() };
    let (_, step) = oauth2_callback_verify(&config, jar, &query);
    match step {
        CallbackStep::Failed { location, .. } => {
            assert!(location.ends_with("?&message=Authorization%20code%20not%20found"));
        },
        _ => panic!("expected a failure"),
    }
}

#[test]
fn valid_callback_sets_credentials() {
    // a valid callback whose exchange returns an access token and no
    // refresh token: access_token and session cookies set, refresh_token
    // removed, redirect to /
    let config = server_cfg();
    let jar = CookieJar::new()
        .add(new_cookie(cookie("oauth_csrf"), "X".to_string()))
        .add(new_cookie(cookie("oauth_pkce"), "V".to_string()))
        .add(new_cookie(cookie("refresh_token"), "stale".to_string()));
    let query = AuthorizationCallbackQuery { code: "abc".to_string(), state: "X".to_string() };
    let (jar, step) = oauth2_callback_verify(&config, jar, &query);
    let verifier = match step {
        CallbackStep::Exchange { code, pkce_verifier } => {
            assert_eq!(code, "abc");
            assert_eq!(pkce_verifier, "V");
            pkce_verifier
        },
        _ => panic!("expected the exchange step"),
    };
    assert_eq!(verifier, "V");

    let token = TokenResponse {
        access_token: "AT".to_string(),
        refresh_token: None,
        expires_in: None,
    };
    let (jar, status, location) = oauth2_callback_complete(&config, jar, Ok(token));
    assert_eq!(status, 307);
    assert_eq!(location, "/");
    assert_eq!(jar.get("access_token").unwrap().value(), "AT");
    assert!(jar.get("refresh_token").is_none());
    assert!(jar.get("oauth_csrf").is_none());
    assert!(jar.get("oauth_pkce").is_none());
    let session = Session::decode_cookie(jar.get("session").unwrap().value().to_string()).unwrap();
    assert_eq!(session.expire(), None);
    assert_eq!(session.id().len(), 64);
}

#[test]
fn failed_exchange_sets_no_credentials() {
    let config = server_cfg();
    let (jar, status, location) =
        oauth2_callback_complete(&config, CookieJar::new(), Err(ProviderError::InvalidGrant));
    assert_eq!(status, 307);
    assert_eq!(
        location,
        "https://proxy.example.com/error?&message=Invalid%20authorization%20code"
    );
    assert!(jar.get("access_token").is_none());
    assert!(jar.get("session").is_none());
}

#[test]
fn exchange_with_refresh_and_expiry() {
    let handler = OpenIDConnectHttpHandler::new(oauth_cfg(), cookies_cfg()).unwrap();
    let token = TokenResponse {
        access_token: "AT".to_string(),
        refresh_token: Some("RT".to_string()),
        expires_in: Some(3600),
    };
    let jar = handler.exchange_code(CookieJar::new(), &token);
    assert_eq!(jar.get("access_token").unwrap().value(), "AT");
    assert_eq!(jar.get("refresh_token").unwrap().value(), "RT");
    let session = Session::decode_cookie(jar.get("session").unwrap().value().to_string()).unwrap();
    let exp = session.expire().unwrap();
    assert_eq!(exp, session.issued_at() + 3600);
}

#[test]
fn credential_for_request_decisions() {
    let handler = OpenIDConnectHttpHandler::new(oauth_cfg(), cookies_cfg()).unwrap();

    // no access token: request proceeds unauthenticated, jar untouched
    let jar = CookieJar::new().add(new_cookie(cookie("other"), "x".to_string()));
    let (jar, decision) = handler.get_or_refresh_token(jar);
    assert!(matches!(decision, TokenDecision::NoCredential));
    assert_eq!(jar.get("other").unwrap().value(), "x");
    assert!(jar.get("access_token").is_none());

    // access token but no refresh token: used as it stands
    let jar = CookieJar::new().add(new_cookie(cookie("access_token"), "A".to_string()));
    let (jar, decision) = handler.get_or_refresh_token(jar);
    match decision {
        TokenDecision::UseAccessToken { access_token } => assert_eq!(access_token, "A"),
        _ => panic!("expected the existing token"),
    }
    assert_eq!(jar.get("access_token").unwrap().value(), "A");

    // both present: a refresh is attempted
    let jar = CookieJar::new()
        .add(new_cookie(cookie("access_token"), "A".to_string()))
        .add(new_cookie(cookie("refresh_token"), "R".to_string()));
    let (jar, decision) = handler.get_or_refresh_token(jar);
    match decision {
        TokenDecision::RefreshWith { refresh_token } => assert_eq!(refresh_token, "R"),
        _ => panic!("expected a refresh"),
    }

    // refresh success overwrites the access token and returns it
    let token = TokenResponse {
        access_token: "NEW".to_string(),
        refresh_token: None,
        expires_in: None,
    };
    let (jar2, got) = handler.refresh_access_token(jar, &Ok(token));
    assert_eq!(got.as_deref(), Some("NEW"));
    assert_eq!(jar2.get("access_token").unwrap().value(), "NEW");

    // refresh failure degrades to unauthenticated, jar unchanged
    let jar = CookieJar::new()
        .add(new_cookie(cookie("access_token"), "A".to_string()))
        .add(new_cookie(cookie("refresh_token"), "R".to_string()));
    let (jar2, got) = handler.refresh_access_token(jar, &Err(ProviderError::Transient));
    assert!(got.is_none());
    assert_eq!(jar2.get("access_token").unwrap().value(), "A");
    assert_eq!(jar2.get("refresh_token").unwrap().value(), "R");
}

#[test]
fn provider_errors_are_classified() {
    assert_eq!(
        classify_provider_error("server said: invalid_grant"),
        ProviderError::InvalidGrant
    );
    assert_eq!(
        classify_provider_error("invalid_request while validating"),
        ProviderError::InvalidRequest
    );
    assert_eq!(classify_provider_error("invalid_client"), ProviderError::InvalidClient);
    assert_eq!(classify_provider_error("connection reset"), ProviderError::Transient);
    // checked in order
    assert_eq!(
        classify_provider_error("invalid_client then invalid_grant"),
        ProviderError::InvalidGrant
    );
    assert_eq!(ProviderError::InvalidClient.message(), "Invalid client");
    assert_eq!(ProviderError::Transient.message(), "Token exchange failed");
    assert_eq!(ProviderError::InvalidRequest.message(), "Invalid PKCE verifier");
}

#[test]
fn pkce_challenge_matches_known_vector() {
    // the worked example of the PKCE specification
    assert_eq!(
        pkce_challenge("dBjftJeZ4CVP-mB92K27uhbUJU1p1r_wW1gFWFOEjXk"),
        "E9Melhoa2OwvFrEMTJguCHaoeK1t8URWbuGJSstw-cM"
    );
}

#[test]
fn client_rejects_bad_urls() {
    let mut cfg = oauth_cfg();
    cfg.token_endpoint = "not a url".to_string();
    let err = OAuthClient::new(cfg).unwrap_err();
    assert_eq!(err, ConfigError::InvalidTokenEndpoint);
    assert_eq!(err.message(), "Failed to parse token url");

    let mut cfg = oauth_cfg();
    cfg.authorization_redirect_uri = "relative/path".to_string();
    assert_eq!(OAuthClient::new(cfg).unwrap_err(), ConfigError::InvalidRedirectUri);

    let mut cfg = oauth_cfg();
    cfg.authorization_endpoint = "ht tp://x".to_string();
    assert_eq!(
        OAuthClient::new(cfg).unwrap_err(),
        ConfigError::InvalidAuthorizationEndpoint
    );

    assert!(OAuthClient::new(oauth_cfg()).is_ok());
}

fn oidc_cfg() -> OpenIDConnectConfig {
    OpenIDConnectConfig {
        client_id: "cid".to_string(),
        client_secret: "SECRET-REDACTED".to_string(),
        authorization_redirect_uri: "https://proxy.example.com/oauth/callback".to_string(),
        authorization_endpoint: "https://auth.example.com/authorize".to_string(),
        issuer: "https://auth.example.com".to_string(),
        token_endpoint: "https://auth.example.com/token".to_string(),
        userinfo_endpoint: Some("https://auth.example.com/userinfo".to_string()),
        jwks_uri: Some("https://auth.example.com/jwks".to_string()),
        default_scopes: Some(vec!["openid".to_string()]),
    }
}

#[test]
fn oidc_client_validates_configuration() {
    assert!(OpenIDConnectClient::new(oidc_cfg()).is_ok());
    assert!(OpenIDConnectClient::from_provider_metadata(oidc_cfg()).is_ok());

    let mut cfg = oidc_cfg();
    cfg.issuer = "nope".to_string();
    assert_eq!(OpenIDConnectClient::new(cfg).unwrap_err(), ConfigError::InvalidIssuer);

    let mut cfg = oidc_cfg();
    cfg.jwks_uri = Some(String::new());
    assert_eq!(OpenIDConnectClient::new(cfg).unwrap_err(), ConfigError::InvalidConfiguration);

    let mut cfg = oidc_cfg();
    cfg.default_scopes = Some(vec![]);
    assert_eq!(OpenIDConnectClient::new(cfg).unwrap_err(), ConfigError::InvalidConfiguration);

    let mut cfg = oidc_cfg();
    cfg.userinfo_endpoint = Some("bad".to_string());
    assert_eq!(OpenIDConnectClient::new(cfg).unwrap_err(), ConfigError::InvalidUserinfoEndpoint);

    let client = OpenIDConnectClient::new(oidc_cfg()).unwrap();
    let (url, csrf, _verifier) = client.build_authorization_endpoint(None);
    assert!(url.starts_with("https://auth.example.com/authorize?response_type=code&client_id=cid&state="));
    assert!(url.contains(&format!("&state={csrf}&code_challenge=")));
}

#[test]
fn text_helpers_are_exact() {
    assert_eq!(pct_encode("CSRF token not found"), "CSRF%20token%20not%20found");
    assert_eq!(pct_encode("a b/c:d~e"), "a%20b%2Fc%3Ad~e");
    assert_eq!(pct_encode("é€"), "%C3%A9%E2%82%AC");
    assert_eq!(u64_to_dec(0), "0");
    assert_eq!(u64_to_dec(9876543210), "9876543210");
    assert_eq!(parse_i64_dec("-42"), Some(-42));
    assert_eq!(parse_i64_dec("0"), Some(0));
    assert_eq!(parse_i64_dec("9223372036854775807"), Some(i64::MAX));
    assert_eq!(parse_i64_dec("-9223372036854775808"), Some(i64::MIN));
    assert_eq!(parse_i64_dec("9223372036854775808"), None);
    assert_eq!(parse_i64_dec("007"), None);
    assert_eq!(parse_i64_dec("-0"), None);
    assert_eq!(parse_i64_dec(""), None);
    assert_eq!(parse_i64_dec("12a"), None);
    assert_eq!(bearer_authorization_value("tok"), "Bearer tok");
    assert_eq!(
        build_error_redirect_url("https://e.example", "oops"),
        "https://e.example?&message=oops"
    );
}

#[test]
fn server_config_parses_its_base_url() {
    let config = server_cfg();
    assert_eq!(config.base_url(), "localhost:3000");
    assert_eq!(config.scheme(), "https");
    assert_eq!(config.domain(), "proxy.example.com");
}
