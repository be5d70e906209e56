use baffao::cookies::{new_cookie, CookieJar};
use baffao::settings::{CookieConfig, SameSite};

fn cfg(name: &str) -> CookieConfig {
    CookieConfig {
        name: name.to_string(),
        domain: "example.com".to_string(),
        secure: true,
        http_only: true,
        same_site: SameSite::Strict,
    }
}

#[test]
fn test_new_cookie() {
    let config = CookieConfig {
        name: "test_cookie".to_string(),
        domain: "example.com".to_string(),
        secure: true,
        http_only: true,
        same_site: SameSite::Strict,
    };
    let value = "test_value".to_string();

    let cookie = new_cookie(config, value);

    assert_eq!(cookie.name(), "test_cookie");
    assert_eq!(cookie.value(), "test_value");
    assert_eq!(cookie.domain(), Some("example.com"));
    assert_eq!(cookie.path(), Some("/"));
    assert_eq!(cookie.secure(), Some(true));
    assert_eq!(cookie.http_only(), Some(true));
    assert_eq!(cookie.same_site(), Some(SameSite::Strict));
}

#[test]
fn jar_get_add_remove() {
    let jar = CookieJar::new();
    assert!(jar.get("a").is_none());

    let jar = jar.add(new_cookie(cfg("a"), "1".to_string()));
    let jar = jar.add(new_cookie(cfg("b"), "2".to_string()));
    assert_eq!(jar.get("a").unwrap().value(), "1");
    assert_eq!(jar.get("b").unwrap().value(), "2");

    let jar = jar.add(new_cookie(cfg("a"), "3".to_string()));
    assert_eq!(jar.get("a").unwrap().value(), "3");

    let jar = jar.remove("a");
    assert!(jar.get("a").is_none());
    assert_eq!(jar.get("b").unwrap().value(), "2");

    let jar = jar.remove("missing");
    assert_eq!(jar.get("b").unwrap().value(), "2");
}

#[test]
fn cookie_header_rendering() {
    let config = CookieConfig {
        name: "session".to_string(),
        domain: "localhost".to_string(),
        secure: true,
        http_only: true,
        same_site: SameSite::Lax,
    };
    assert_eq!(
        config.to_string_with_value("abc".to_string()),
        "session=abc; Domain=localhost; Path=/; SameSite=Lax; Secure; HttpOnly"
    );

    let plain = CookieConfig {
        name: "s".to_string(),
        domain: "d".to_string(),
        secure: false,
        http_only: false,
        same_site: SameSite::None_,
    };
    assert_eq!(
        plain.to_string_with_value("v".to_string()),
        "s=v; Domain=d; Path=/; SameSite=None"
    );
}
