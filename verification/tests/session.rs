use base64::Engine;

use baffao::cookies::{new_cookie, CookieJar};
use baffao::handlers::get_session_from_cookie;
use baffao::session::{extract_session, generate_session_id, update_session, Session};
use baffao::settings::{CookieConfig, CookiesConfig, SameSite};

fn session_cfg() -> CookieConfig {
    CookieConfig {
        domain: "localhost".to_string(),
        name: "session".to_string(),
        secure: false,
        http_only: false,
        same_site: SameSite::Strict,
    }
}

fn cookies_cfg() -> CookiesConfig {
    let base = |name: &str| CookieConfig {
        name: name.to_string(),
        domain: "localhost".to_string(),
        secure: true,
        http_only: true,
        same_site: SameSite::Lax,
    };
    CookiesConfig {
        oauth_csrf: base("oauth_csrf"),
        oauth_pkce: base("oauth_pkce"),
        access_token: base("access_token"),
        refresh_token: base("refresh_token"),
        session: base("session"),
    }
}

#[test]
fn test_extract_session() {
    let mut jar = CookieJar::new();
    let config = session_cfg();

    let session = Session::new(None, None, None);
    let encoded_cookie = session.encode_cookie();

    jar = jar.add(new_cookie(config.to_owned_config(), encoded_cookie));

    let result = extract_session(&jar, &config);

    assert!(result.is_ok());
    let extracted_session = result.unwrap();
    assert!(extracted_session.is_some());
    assert_eq!(extracted_session.unwrap().id(), session.id());
}

#[test]
fn wire_encoding_is_exact() {
    let s = Session::new(Some("abc".to_string()), Some(100), Some(200));
    assert_eq!(s.encode(), "abc|100|200");
    let expected = base64::engine::general_purpose::STANDARD.encode("abc|100|200");
    assert_eq!(s.encode_cookie(), expected);
    assert_eq!(s.encode_cookie(), "YWJjfDEwMHwyMDA=");

    let open_ended = Session::new(Some("id9".to_string()), Some(-42), None);
    assert_eq!(open_ended.encode(), "id9|-42|");
}

#[test]
fn round_trip_returns_the_record() {
    let cases = vec![
        Session::new(Some("abc".to_string()), Some(100), Some(200)),
        Session::new(Some(String::new()), Some(0), None),
        Session::new(Some("x".to_string()), Some(-5), Some(7)),
        Session::new(None, None, None),
    ];
    for s in cases {
        let decoded = Session::decode_cookie(s.encode_cookie()).unwrap();
        assert_eq!(decoded.id(), s.id());
        assert_eq!(decoded.issued_at(), s.issued_at());
        assert_eq!(decoded.expire(), s.expire());
    }
}

#[test]
fn decode_rejects_garbage() {
    // not base64 at all
    assert!(Session::decode_cookie("!!not base64!!".to_string()).is_err());
    // valid base64, but no session payload inside
    let hello = base64::engine::general_purpose::STANDARD.encode("hello");
    assert!(Session::decode_cookie(hello).is_err());
    // a truncated encoding loses its padding and is refused
    let s = Session::new(Some("abc".to_string()), Some(100), Some(200));
    let mut enc = s.encode_cookie();
    enc.pop();
    assert!(Session::decode_cookie(enc).is_err());
    // bad payloads behind valid base64
    let engine = &base64::engine::general_purpose::STANDARD;
    for bad in [
        "",
        "nobars",
        "id|1",
        "id|01|",
        "id|1|2|3",
        "id|a|",
        "id|1|x",
        "id|5|3",
        "id|9223372036854775808|",
    ] {
        assert!(
            Session::decode_cookie(engine.encode(bad)).is_err(),
            "accepted {:?}",
            bad
        );
    }
}

#[test]
fn expiry_is_strictly_past() {
    let s = Session::new(Some("a".to_string()), Some(0), Some(5));
    assert!(s.is_expired_at(6));
    assert!(!s.is_expired_at(5));
    assert!(!s.is_expired_at(4));

    let eternal = Session::new(Some("a".to_string()), Some(0), None);
    assert!(!eternal.is_expired_at(i64::MAX));
    assert!(!eternal.is_expired());

    let past = Session::new(Some("a".to_string()), Some(0), Some(1));
    assert!(past.is_expired());

    let far = Session::new(Some("a".to_string()), Some(0), Some(i64::MAX));
    assert!(!far.is_expired());
}

#[test]
fn session_ids_are_long_hex() {
    let id = generate_session_id();
    assert_eq!(id.len(), 64);
    assert!(id.chars().all(|c| c.is_ascii_hexdigit() && !c.is_ascii_uppercase()));
    assert_ne!(generate_session_id(), id);
}

#[test]
fn get_session_drops_expired_and_garbage() {
    let cookies = cookies_cfg();

    // garbage value: treated as no session, cookie removed
    let jar = CookieJar::new().add(new_cookie(session_cfg(), "zzz".to_string()));
    let (jar2, s) = get_session_from_cookie(jar, cookies_cfg());
    assert!(s.is_none());
    assert!(jar2.get("session").is_none());

    // expired record: removed
    let expired = Session::new(None, Some(0), Some(1));
    let jar = CookieJar::new().add(new_cookie(session_cfg(), expired.encode_cookie()));
    let (jar2, s) = get_session_from_cookie(jar, cookies_cfg());
    assert!(s.is_none());
    assert!(jar2.get("session").is_none());

    // a record without expiry is always returned, jar untouched
    let live = Session::new(None, None, None);
    let jar = CookieJar::new().add(new_cookie(session_cfg(), live.encode_cookie()));
    let (jar2, s) = get_session_from_cookie(jar, cookies_cfg());
    assert_eq!(s.unwrap().id(), live.id());
    assert!(jar2.get("session").is_some());

    // no cookie at all
    let (jar2, s) = get_session_from_cookie(CookieJar::new(), cookies);
    assert!(s.is_none());
    assert!(jar2.get("session").is_none());
}

#[test]
fn update_session_writes_the_encoding() {
    let jar = CookieJar::new();
    let s = Session::new(Some("abc".to_string()), Some(1), Some(2));
    let expected = s.encode_cookie();
    let jar = update_session(jar, session_cfg(), Some(s));
    assert_eq!(jar.get("session").unwrap().value(), expected);

    // no record given: a fresh one, decodable, without expiry
    let jar = update_session(CookieJar::new(), session_cfg(), None);
    let value = jar.get("session").unwrap().value().to_string();
    let fresh = Session::decode_cookie(value).unwrap();
    assert_eq!(fresh.expire(), None);
    assert_eq!(fresh.id().len(), 64);
}
