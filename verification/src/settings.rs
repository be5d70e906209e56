//! Configuration values: the server, its cookies, and auxiliary settings.
//! All are plain data; the flow functions state their contracts over them.

use vstd::prelude::*;

use crate::text::{
    dec_of, find_char, first_index_of, host_len_from, host_of, is_absolute_url, is_host_end,
    lemma_first_index_of, lemma_host_len_unique, scheme_of, u64_to_dec,
};

verus! {

/// The `SameSite` attribute of a cookie policy.
#[derive(Clone, Copy, Debug, PartialEq, Eq, Structural)]
pub enum SameSite {
    Lax,
    Strict,
    None_,
}

impl SameSite {
    pub open spec fn spec_str(self) -> Seq<char> {
        match self {
            SameSite::Lax => "Lax"@,
            SameSite::Strict => "Strict"@,
            SameSite::None_ => "None"@,
        }
    }

    pub fn as_str(&self) -> (r: &'static str)
        ensures
            r@ == self.spec_str(),
    {
        match self {
            SameSite::Lax => "Lax",
            SameSite::Strict => "Strict",
            SameSite::None_ => "None",
        }
    }
}

/// The policy of one named cookie.
#[derive(Clone, Debug)]
pub struct CookieConfig {
    pub name: String,
    pub domain: String,
    pub secure: bool,
    pub http_only: bool,
    pub same_site: SameSite,
}

/// The `Set-Cookie` rendering of a policy with a value: name, value,
/// domain, the fixed `/` path, and the flags.
pub open spec fn cookie_string_of(
    name: Seq<char>,
    value: Seq<char>,
    domain: Seq<char>,
    same_site: SameSite,
    secure: bool,
    http_only: bool,
) -> Seq<char> {
    let base = name + "="@ + value + "; Domain="@ + domain + "; Path=/; SameSite="@
        + same_site.spec_str();
    let with_secure = if secure {
        base + "; Secure"@
    } else {
        base
    };
    if http_only {
        with_secure + "; HttpOnly"@
    } else {
        with_secure
    }
}

impl CookieConfig {
    /// The policy invariant: a cross-site cookie must be secure.
    pub open spec fn policy_ok(&self) -> bool {
        self.same_site == SameSite::None_ ==> self.secure
    }

    /// An owned copy of the policy, for building a cookie from a
    /// borrowed configuration.
    pub fn to_owned_config(&self) -> (r: CookieConfig)
        ensures
            r == *self,
    {
        CookieConfig {
            name: self.name.clone(),
            domain: self.domain.clone(),
            secure: self.secure,
            http_only: self.http_only,
            same_site: self.same_site,
        }
    }

    /// Renders the cookie header line for this policy carrying `value`.
    pub fn to_string_with_value(&self, value: String) -> (r: String)
        ensures
            r@ == cookie_string_of(
                self.name@,
                value@,
                self.domain@,
                self.same_site,
                self.secure,
                self.http_only,
            ),
    {
        let mut cookie = self.name.clone();
        cookie.append("=");
        cookie.append(value.as_str());
        cookie.append("; Domain=");
        cookie.append(self.domain.as_str());
        cookie.append("; Path=/; SameSite=");
        cookie.append(self.same_site.as_str());
        if self.secure {
            cookie.append("; Secure");
        }
        if self.http_only {
            cookie.append("; HttpOnly");
        }
        proof {
            assert(cookie@ =~= cookie_string_of(
                self.name@,
                value@,
                self.domain@,
                self.same_site,
                self.secure,
                self.http_only,
            ));
        }
        cookie
    }
}

/// The policies of the five auth cookies.
#[derive(Clone, Debug)]
pub struct CookiesConfig {
    pub oauth_csrf: CookieConfig,
    pub oauth_pkce: CookieConfig,
    pub access_token: CookieConfig,
    pub refresh_token: CookieConfig,
    pub session: CookieConfig,
}

impl CookiesConfig {
    /// Each logical credential maps to exactly one named cookie: the five
    /// names are pairwise distinct, and each policy is valid.
    pub open spec fn wf(&self) -> bool {
        &&& self.oauth_csrf.name@ != self.oauth_pkce.name@
        &&& self.oauth_csrf.name@ != self.access_token.name@
        &&& self.oauth_csrf.name@ != self.refresh_token.name@
        &&& self.oauth_csrf.name@ != self.session.name@
        &&& self.oauth_pkce.name@ != self.access_token.name@
        &&& self.oauth_pkce.name@ != self.refresh_token.name@
        &&& self.oauth_pkce.name@ != self.session.name@
        &&& self.access_token.name@ != self.refresh_token.name@
        &&& self.access_token.name@ != self.session.name@
        &&& self.refresh_token.name@ != self.session.name@
        &&& self.oauth_csrf.policy_ok()
        &&& self.oauth_pkce.policy_ok()
        &&& self.access_token.policy_ok()
        &&& self.refresh_token.policy_ok()
        &&& self.session.policy_ok()
    }
}

/// The server's own address and the error page, with the cookie policies.
#[derive(Clone, Debug)]
pub struct ServerConfig {
    pub host: String,
    pub port: u16,
    pub base_url: String,
    pub cookies: CookiesConfig,
    pub error_url: String,
}

impl ServerConfig {
    /// `host:port`, the address the server binds.
    pub fn base_url(&self) -> (r: String)
        ensures
            r@ == self.host@ + ":"@ + dec_of(self.port as nat),
    {
        let mut out = self.host.clone();
        out.append(":");
        let port_str = u64_to_dec(self.port as u64);
        out.append(port_str.as_str());
        proof {
            assert(out@ =~= self.host@ + ":"@ + dec_of(self.port as nat));
        }
        out
    }

    /// The scheme of the configured base URL.
    pub fn scheme(&self) -> (r: String)
        requires
            is_absolute_url(self.base_url@),
        ensures
            r@ == scheme_of(self.base_url@),
    {
        let s = self.base_url.as_str();
        let i = match find_char(s, ':') {
            Some(i) => i,
            None => {
                proof {
                    assert(false);
                }
                return String::new();
            },
        };
        s.substring_char(0, i).to_owned()
    }

    /// The host of the configured base URL.
    pub fn domain(&self) -> (r: String)
        requires
            is_absolute_url(self.base_url@),
        ensures
            r@ == host_of(self.base_url@),
    {
        let s = self.base_url.as_str();
        let len = s.unicode_len();
        let i = match find_char(s, ':') {
            Some(i) => i,
            None => {
                proof {
                    assert(false);
                }
                return String::new();
            },
        };
        proof {
            lemma_first_index_of(s@, ':');
        }
        let start = i + 3;
        let mut k: usize = start;
        let mut stop = false;
        while !stop && k < len
            invariant
                start <= k <= len,
                start == first_index_of(s@, ':') + 3,
                0 <= start <= len,
                len == s@.len(),
                stop ==> k < len && is_host_end(s@[k as int]),
                forall|j: int| start <= j < k ==> !is_host_end(#[trigger] s@[j]),
            decreases len - k, (if stop { 0int } else { 1int }),
        {
            let c = s.get_char(k);
            if c == '/' || c == ':' || c == '?' || c == '#' {
                stop = true;
            } else {
                k += 1;
            }
        }
        proof {
            let rest = s@.subrange(start as int, len as int);
            assert(forall|j: int| 0 <= j < rest.len() ==> rest[j] == s@[start + j]);
            lemma_host_len_unique(rest, k - start);
            assert(s@.subrange(start as int, k as int) =~= rest.subrange(0, host_len_from(rest)));
        }
        s.substring_char(start, k).to_owned()
    }
}

/// Settings for signing, kept for the embedding server.
#[derive(Clone, Debug)]
pub struct JwtConfig {
    pub secret: String,
    pub issuer: String,
}

/// The upstream service requests are proxied to.
#[derive(Clone, Debug)]
pub struct ProxyConfig {
    pub host: String,
    pub port: u16,
}

/// A caller's identity as the upstream sees it.
#[derive(Clone, Debug)]
pub struct Identity {
    pub subject: String,
    pub name: String,
    pub email: String,
}

/// Everything the server is configured with.
#[derive(Clone, Debug)]
pub struct Settings {
    pub server: ServerConfig,
    pub oauth: crate::oauth::OAuthConfig,
    pub jwt: Option<JwtConfig>,
    pub proxy: Option<ProxyConfig>,
    pub debug: bool,
}

} // verus!
