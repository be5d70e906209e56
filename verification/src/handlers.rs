//! The externally visible operations of the authentication flow:
//! begin-authorization, the two halves of the callback (the checks before
//! the token exchange, and the cookie updates after it), and reading the
//! session. The token exchange itself is a server-to-server call the
//! embedding server performs between the two callback halves.

use vstd::prelude::*;

use crate::cookies::{cookie_of, new_cookie, CookieJar, CookieModel};
use crate::error::{error_redirect_pct_of, CallbackError, ProviderError};
use crate::oauth::{auth_url_of, effective_scopes, OAuthClient, TokenResponse};
use crate::session::{wire_of, Session, SessionModel};
use crate::settings::{CookiesConfig, ServerConfig};
use crate::text::{pct_encode, split_chars, split_str, str_eq};
use crate::trusted::{b64url_of, base64_of, now_timestamp, sha256_str_of};

verus! {

/// The query of `GET /oauth/authorize`.
#[derive(Debug)]
pub struct AuthorizationQuery {
    pub scope: Option<String>,
}

/// The query of `GET /oauth/callback`.
#[derive(Debug)]
pub struct AuthorizationCallbackQuery {
    pub code: String,
    pub state: String,
}

/// The scopes an authorization request asks for: the space-separated
/// `scope` query parameter where given, else the caller's defaults.
pub open spec fn requested_scopes(query: Option<AuthorizationQuery>) -> Option<Seq<Seq<char>>> {
    match query {
        Some(q) => match q.scope {
            Some(s) => Some(split_chars(s@, ' ')),
            None => None,
        },
        None => None,
    }
}

/// Begin-authorization: draws the CSRF token and PKCE verifier, sets both
/// cookies, and returns a temporary redirect to the provider. The URL's
/// `state` equals the CSRF cookie's value, and its challenge is the
/// SHA-256 digest of the PKCE cookie's value.
pub fn oauth2_authorize(
    client: &OAuthClient,
    config: &ServerConfig,
    jar: CookieJar,
    query: Option<AuthorizationQuery>,
) -> (r: (CookieJar, u16, String))
    requires
        jar.wf(),
        config.cookies.wf(),
    ensures
        r.0.wf(),
        r.1 == 307,
        ({
            let cn = config.cookies.oauth_csrf.name@;
            let pn = config.cookies.oauth_pkce.name@;
            let csrf = r.0@[cn].value;
            let verifier = r.0@[pn].value;
            &&& r.0@.contains_key(cn)
            &&& r.0@.contains_key(pn)
            &&& r.0@ == jar@.insert(cn, cookie_of(config.cookies.oauth_csrf, csrf)).insert(
                pn,
                cookie_of(config.cookies.oauth_pkce, verifier),
            )
            &&& r.2@ == auth_url_of(
                client.spec_config().authorization_endpoint@,
                client.spec_config().client_id@,
                client.spec_config().authorization_redirect_uri@,
                effective_scopes(
                    requested_scopes(query),
                    match client.spec_config().default_scopes {
                        Some(d) => Some(d.deep_view()),
                        None => None,
                    },
                ),
                csrf,
                b64url_of(sha256_str_of(verifier)),
            )
            &&& (exists|bs: Seq<u8>| bs.len() == 32 && csrf == b64url_of(bs))
            &&& (exists|bs: Seq<u8>| bs.len() == 32 && verifier == b64url_of(bs))
            &&& (forall|i: int|
                0 <= i < csrf.len() ==> crate::trusted::is_b64url_char(#[trigger] csrf[i]))
            &&& (forall|i: int|
                0 <= i < verifier.len() ==> crate::trusted::is_b64url_char(#[trigger] verifier[i]))
        }),
{
    let scope_vec: Option<Vec<String>> = match query {
        Some(q) => match q.scope {
            Some(s) => Some(split_str(s.as_str(), ' ')),
            None => None,
        },
        None => None,
    };
    let (url, csrf, verifier) = client.build_authorization_endpoint(scope_vec);
    let jar1 = jar.add(new_cookie(config.cookies.oauth_csrf.to_owned_config(), csrf));
    let jar2 = jar1.add(new_cookie(config.cookies.oauth_pkce.to_owned_config(), verifier));
    (jar2, 307, url)
}

/// What the callback does after its checks: fails with a redirect to the
/// error page, or proceeds to the token exchange.
#[derive(Debug)]
pub enum CallbackStep {
    Failed { status: u16, location: String },
    Exchange { code: String, pkce_verifier: String },
}

/// The first check the callback fails, if any: the CSRF cookie must be
/// present and equal the `state` parameter, the PKCE cookie must be
/// present, and the authorization code must be nonempty.
pub open spec fn callback_failure(
    jar: Map<Seq<char>, CookieModel>,
    cn: Seq<char>,
    pn: Seq<char>,
    code: Seq<char>,
    state: Seq<char>,
) -> Option<CallbackError> {
    if !jar.contains_key(cn) {
        Some(CallbackError::MissingCsrf)
    } else if jar[cn].value != state {
        Some(CallbackError::CsrfMismatch)
    } else if !jar.contains_key(pn) {
        Some(CallbackError::MissingPkceVerifier)
    } else if code.len() == 0 {
        Some(CallbackError::MissingAuthorizationCode)
    } else {
        None
    }
}

/// Law: whenever the CSRF cookie is present but its value is not exactly
/// the `state` parameter — any non-matching pair, empty or not — the
/// callback fails with the CSRF-mismatch message, whatever the code and
/// the other cookies hold.
pub proof fn lemma_callback_csrf_mismatch(
    jar: Map<Seq<char>, CookieModel>,
    cn: Seq<char>,
    pn: Seq<char>,
    code: Seq<char>,
    state: Seq<char>,
)
    requires
        jar.contains_key(cn),
        jar[cn].value != state,
    ensures
        callback_failure(jar, cn, pn, code, state) == Some(CallbackError::CsrfMismatch),
{
}

/// Law: the jar every callback outcome starts from holds neither the
/// CSRF nor the PKCE cookie — `oauth2_callback_verify` removes both on
/// success and failure alike, and `oauth2_callback_complete` never sets
/// them again.
pub proof fn lemma_callback_cleanup(jar: Map<Seq<char>, CookieModel>, cn: Seq<char>, pn: Seq<char>)
    ensures
        !jar.remove(cn).remove(pn).contains_key(cn),
        !jar.remove(cn).remove(pn).contains_key(pn),
{
}

/// The callback's checks, in order, each a terminal failure; the CSRF and
/// PKCE cookies are removed on every path, success and failure alike —
/// an authorization attempt is consumed exactly once.
pub fn oauth2_callback_verify(
    config: &ServerConfig,
    jar: CookieJar,
    query: &AuthorizationCallbackQuery,
) -> (r: (CookieJar, CallbackStep))
    requires
        jar.wf(),
        config.cookies.wf(),
    ensures
        r.0.wf(),
        r.0@ == jar@.remove(config.cookies.oauth_csrf.name@).remove(
            config.cookies.oauth_pkce.name@,
        ),
        ({
            let cn = config.cookies.oauth_csrf.name@;
            let pn = config.cookies.oauth_pkce.name@;
            let failure = callback_failure(jar@, cn, pn, query.code@, query.state@);
            match r.1 {
                CallbackStep::Failed { status, location } => {
                    &&& status == 307
                    &&& failure matches Some(e) && location@ == error_redirect_pct_of(
                        config.error_url@,
                        e.spec_message(),
                    )
                },
                CallbackStep::Exchange { code, pkce_verifier } => {
                    &&& failure is None
                    &&& code@ == query.code@
                    &&& pkce_verifier@ == jar@[pn].value
                },
            }
        }),
{
    let csrf_val: Option<String> = match jar.get(config.cookies.oauth_csrf.name.as_str()) {
        Some(c) => Some(c.value.clone()),
        None => None,
    };
    let pkce_val: Option<String> = match jar.get(config.cookies.oauth_pkce.name.as_str()) {
        Some(c) => Some(c.value.clone()),
        None => None,
    };
    let jar1 = jar.remove(config.cookies.oauth_csrf.name.as_str());
    let jar2 = jar1.remove(config.cookies.oauth_pkce.name.as_str());
    let step = match csrf_val {
        None => failed_step(config, CallbackError::MissingCsrf),
        Some(csrf) => {
            if !str_eq(csrf.as_str(), query.state.as_str()) {
                failed_step(config, CallbackError::CsrfMismatch)
            } else {
                match pkce_val {
                    None => failed_step(config, CallbackError::MissingPkceVerifier),
                    Some(pkce_verifier) => {
                        if query.code.unicode_len() == 0 {
                            failed_step(config, CallbackError::MissingAuthorizationCode)
                        } else {
                            CallbackStep::Exchange { code: query.code.clone(), pkce_verifier }
                        }
                    },
                }
            }
        },
    };
    (jar2, step)
}

/// A temporary redirect to the error page carrying the error's message.
fn failed_step(config: &ServerConfig, error: CallbackError) -> (r: CallbackStep)
    ensures
        r matches CallbackStep::Failed { status, location } && status == 307 && location@
            == error_redirect_pct_of(config.error_url@, error.spec_message()),
{
    let encoded = pct_encode(error.message());
    let location = crate::error::build_error_redirect_url(
        config.error_url.as_str(),
        encoded.as_str(),
    );
    CallbackStep::Failed { status: 307, location }
}

/// The expiry a token response gives a session issued at `iat`:
/// `iat + expires_in`, saturated at the largest representable time.
pub open spec fn expiry_of(iat: int, expires_in: Option<u64>) -> Option<int> {
    match expires_in {
        None => None,
        Some(d) => Some(
            if iat + d <= i64::MAX {
                iat + d
            } else {
                i64::MAX as int
            },
        ),
    }
}

/// The jar after a successful exchange: the access-token cookie set, the
/// refresh-token cookie set or removed by whether the provider returned
/// one, and the session cookie set to the encoding of `m`.
pub open spec fn jar_after_token(
    cookies: CookiesConfig,
    jar: Map<Seq<char>, CookieModel>,
    t: TokenResponse,
    m: SessionModel,
) -> Map<Seq<char>, CookieModel> {
    let j1 = jar.insert(
        cookies.access_token.name@,
        cookie_of(cookies.access_token, t.access_token@),
    );
    let j2 = match t.refresh_token {
        Some(rt) => j1.insert(cookies.refresh_token.name@, cookie_of(cookies.refresh_token, rt@)),
        None => j1.remove(cookies.refresh_token.name@),
    };
    j2.insert(cookies.session.name@, cookie_of(cookies.session, base64_of(wire_of(m))))
}

/// Applies a successful token response to the jar: credential cookies and
/// a fresh session record issued now, expiring as the provider said.
pub fn apply_token_response(cookies: &CookiesConfig, jar: CookieJar, token: &TokenResponse) -> (r:
    CookieJar)
    requires
        jar.wf(),
        cookies.wf(),
    ensures
        r.wf(),
        exists|m: SessionModel| #![auto]
            m.wf() && m.id.len() == 64 && m.exp == expiry_of(m.iat, token.expires_in) && r@
                == jar_after_token(*cookies, jar@, *token, m),
{
    let jar1 = jar.add(
        new_cookie(cookies.access_token.to_owned_config(), token.access_token.clone()),
    );
    let jar2 = match &token.refresh_token {
        Some(rt) => jar1.add(new_cookie(cookies.refresh_token.to_owned_config(), rt.clone())),
        None => jar1.remove(cookies.refresh_token.name.as_str()),
    };
    let now = now_timestamp();
    let exp: Option<i64> = match token.expires_in {
        Some(d) => {
            let e: i64 = if (now as i128) + (d as i128) <= (i64::MAX as i128) {
                ((now as i128) + (d as i128)) as i64
            } else {
                i64::MAX
            };
            Some(e)
        },
        None => None,
    };
    let session = Session::new(None, Some(now), exp);
    let encoded = session.encode_cookie();
    let jar3 = jar2.add(new_cookie(cookies.session.to_owned_config(), encoded));
    proof {
        let m = session@;
        assert(m.exp == expiry_of(m.iat, token.expires_in));
        assert(jar3@ == jar_after_token(*cookies, jar@, *token, m));
    }
    jar3
}

/// The callback's second half, fed the exchange's outcome. On failure the
/// classified error goes to the error page and no credential cookie is
/// set; on success the credential and session cookies are set and the
/// browser returns to `/`. Cookies already removed stay removed.
pub fn oauth2_callback_complete(
    config: &ServerConfig,
    jar: CookieJar,
    outcome: Result<TokenResponse, ProviderError>,
) -> (r: (CookieJar, u16, String))
    requires
        jar.wf(),
        config.cookies.wf(),
    ensures
        r.0.wf(),
        r.1 == 307,
        outcome matches Err(e) ==> r.0@ == jar@ && r.2@ == error_redirect_pct_of(
            config.error_url@,
            e.spec_message(),
        ),
        outcome matches Ok(t) ==> r.2@ == "/"@ && (exists|m: SessionModel| #![auto]
            m.wf() && m.id.len() == 64 && m.exp == expiry_of(m.iat, t.expires_in) && r.0@
                == jar_after_token(config.cookies, jar@, t, m)),
        !jar@.contains_key(config.cookies.oauth_csrf.name@) ==> !r.0@.contains_key(
            config.cookies.oauth_csrf.name@,
        ),
        !jar@.contains_key(config.cookies.oauth_pkce.name@) ==> !r.0@.contains_key(
            config.cookies.oauth_pkce.name@,
        ),
{
    match outcome {
        Err(e) => {
            let encoded = pct_encode(e.message());
            let location = crate::error::build_error_redirect_url(
                config.error_url.as_str(),
                encoded.as_str(),
            );
            (jar, 307, location)
        },
        Ok(t) => {
            let jar2 = apply_token_response(&config.cookies, jar, &t);
            (jar2, 307, "/".to_owned())
        },
    }
}

/// Reads the session from the jar. A missing cookie is no session; an
/// undecodable or expired one is removed and treated the same; a valid,
/// unexpired one is returned with the jar unchanged. A record without an
/// expiry is always returned.
pub fn get_session_from_cookie(jar: CookieJar, config: CookiesConfig) -> (r: (
    CookieJar,
    Option<Session>,
))
    requires
        jar.wf(),
    ensures
        r.0.wf(),
        !jar@.contains_key(config.session.name@) ==> r.0@ == jar@ && r.1 is None,
        r.1 matches Some(sess) ==> r.0@ == jar@ && sess@.wf() && jar@.contains_key(
            config.session.name@,
        ) && jar@[config.session.name@].value == base64_of(wire_of(sess@)) && (forall|
            m: SessionModel,
        |
            m.wf() && jar@[config.session.name@].value == base64_of(wire_of(m)) ==> sess@ == m),
        jar@.contains_key(config.session.name@) && (forall|m: SessionModel|
            m.wf() ==> jar@[config.session.name@].value != base64_of(wire_of(m))) ==> r.0@
            == jar@.remove(config.session.name@) && r.1 is None,
        forall|m: SessionModel| #![auto]
            m.wf() && m.exp is None && jar@.contains_key(config.session.name@)
                && jar@[config.session.name@].value == base64_of(wire_of(m)) ==> (
            r.1 matches Some(sess) && sess@ == m),
        jar@.contains_key(config.session.name@) && r.1 is None ==> r.0@ == jar@.remove(
            config.session.name@,
        ),
{
    let session = match crate::session::extract_session(&jar, &config.session) {
        Ok(s) => s,
        Err(_) => {
            let out = jar.remove(config.session.name.as_str());
            return (out, None);
        },
    };
    match session {
        None => (jar, None),
        Some(sess) => {
            if sess.is_expired() {
                let out = jar.remove(config.session.name.as_str());
                (out, None)
            } else {
                (jar, Some(sess))
            }
        },
    }
}

} // verus!
