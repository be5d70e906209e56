//! The session record and its cookie encoding.
//!
//! A record is `{id, issued-at, optional expiry}`. Its wire form is
//! `id|iat|exp` — the id (which never contains `|`), the canonical decimal
//! of the issue timestamp, and the canonical decimal of the expiry or
//! nothing — base64-encoded for cookie transport.

use vstd::prelude::*;

use crate::cookies::{cookie_of, new_cookie, CookieJar};
use crate::error::SessionDecodeError;
use crate::settings::CookieConfig;
use crate::text::{
    dec_i64_of, dec_i64_val, first_index_of, find_char, i64_to_dec, is_dec_i64,
    lemma_dec_i64_canonical, lemma_dec_i64_of_val, lemma_dec_of_shape, lemma_first_index_of,
    lemma_first_index_unique, parse_i64_dec,
};
use crate::trusted::{
    base64_decode, base64_encode, base64_of, hex_encode, hex_of, is_hex_lower_char,
    lemma_hex_of_shape, now_timestamp, secure_random_bytes,
};

verus! {

/// The mathematical content of a session record.
pub ghost struct SessionModel {
    pub id: Seq<char>,
    pub iat: int,
    pub exp: Option<int>,
}

impl SessionModel {
    /// A valid record: the id never contains the field separator, the
    /// timestamps fit the wire type, and the expiry, if present, is not
    /// before the issue time.
    pub open spec fn wf(self) -> bool {
        &&& forall|i: int| 0 <= i < self.id.len() ==> #[trigger] self.id[i] != '|'
        &&& i64::MIN <= self.iat <= i64::MAX
        &&& (self.exp matches Some(e) ==> self.iat <= e && e <= i64::MAX)
    }

    /// Expired: the expiry exists and is strictly in the past.
    pub open spec fn expired_at(self, now: int) -> bool {
        self.exp matches Some(e) && e < now
    }
}

/// Law: a record with an expiry strictly in the past is expired; one
/// with no expiry is expired at no time at all.
pub proof fn lemma_expiry(m: SessionModel, now: int)
    ensures
        m.exp matches Some(e) && e < now ==> m.expired_at(now),
        m.exp is None ==> !m.expired_at(now),
{
}

/// The text form of a record: `id|iat|exp`, expiry possibly empty.
pub open spec fn wire_of(m: SessionModel) -> Seq<char> {
    m.id + seq!['|'] + dec_i64_of(m.iat) + seq!['|'] + (match m.exp {
        Some(e) => dec_i64_of(e),
        None => Seq::<char>::empty(),
    })
}

/// Parses the text form back; `None` on anything that `wire_of` of a
/// valid record cannot produce.
pub open spec fn parse_wire(s: Seq<char>) -> Option<SessionModel> {
    let i = first_index_of(s, '|');
    if i < 0 {
        None
    } else {
        let id = s.subrange(0, i);
        let rest = s.subrange(i + 1, s.len() as int);
        let j = first_index_of(rest, '|');
        if j < 0 {
            None
        } else {
            let iat_s = rest.subrange(0, j);
            let exp_s = rest.subrange(j + 1, rest.len() as int);
            if !is_dec_i64(iat_s) {
                None
            } else {
                let iat = dec_i64_val(iat_s);
                if exp_s.len() == 0 {
                    Some(SessionModel { id, iat, exp: None })
                } else if !is_dec_i64(exp_s) {
                    None
                } else if dec_i64_val(exp_s) < iat {
                    None
                } else {
                    Some(SessionModel { id, iat, exp: Some(dec_i64_val(exp_s)) })
                }
            }
        }
    }
}

proof fn lemma_dec_i64_no_bar(v: int)
    ensures
        forall|i: int|
            0 <= i < dec_i64_of(v).len() ==> #[trigger] dec_i64_of(v)[i] != '|',
{
    if v < 0 {
        lemma_dec_of_shape((-v) as nat);
    } else {
        lemma_dec_of_shape(v as nat);
    }
}

/// Round trip: parsing the wire form of any valid record gives it back.
pub proof fn lemma_wire_round_trip(m: SessionModel)
    requires
        m.wf(),
    ensures
        parse_wire(wire_of(m)) == Some(m),
{
    let s = wire_of(m);
    let iat_s = dec_i64_of(m.iat);
    let exp_s = match m.exp {
        Some(e) => dec_i64_of(e),
        None => Seq::<char>::empty(),
    };
    lemma_dec_i64_no_bar(m.iat);
    lemma_dec_i64_of_val(m.iat);
    let idl = m.id.len() as int;
    assert(s[idl] == '|');
    assert(forall|k: int| 0 <= k < idl ==> s[k] == m.id[k]);
    lemma_first_index_unique(s, '|', idl);
    assert(s.subrange(0, idl) =~= m.id);
    let rest = s.subrange(idl + 1, s.len() as int);
    assert(rest =~= iat_s + seq!['|'] + exp_s);
    let jl = iat_s.len() as int;
    assert(rest[jl] == '|');
    assert(forall|k: int| 0 <= k < jl ==> rest[k] == iat_s[k]);
    lemma_first_index_unique(rest, '|', jl);
    assert(rest.subrange(0, jl) =~= iat_s);
    assert(rest.subrange(jl + 1, rest.len() as int) =~= exp_s);
    match m.exp {
        None => {},
        Some(e) => {
            lemma_dec_i64_of_val(e);
        },
    }
}

/// Soundness: whatever parses is a valid record, and the input is exactly
/// its wire form.
pub proof fn lemma_parse_wire_sound(s: Seq<char>, m: SessionModel)
    requires
        parse_wire(s) == Some(m),
    ensures
        m.wf(),
        s == wire_of(m),
{
    lemma_first_index_of(s, '|');
    let i = first_index_of(s, '|');
    let rest = s.subrange(i + 1, s.len() as int);
    lemma_first_index_of(rest, '|');
    let j = first_index_of(rest, '|');
    let iat_s = rest.subrange(0, j);
    let exp_s = rest.subrange(j + 1, rest.len() as int);
    lemma_dec_i64_canonical(iat_s);
    if exp_s.len() != 0 {
        lemma_dec_i64_canonical(exp_s);
    }
    assert(rest =~= iat_s + seq!['|'] + exp_s);
    assert(s =~= s.subrange(0, i) + seq!['|'] + rest);
    assert(s =~= wire_of(m));
}

/// A session record.
#[derive(Clone, Debug)]
pub struct Session {
    id: String,
    iat: i64,
    exp: Option<i64>,
}

impl View for Session {
    type V = SessionModel;

    closed spec fn view(&self) -> SessionModel {
        SessionModel {
            id: self.id@,
            iat: self.iat as int,
            exp: match self.exp {
                Some(e) => Some(e as int),
                None => None,
            },
        }
    }
}

/// A fresh opaque session id: 64 lowercase hex digits read from the
/// system's secure random source (256 bits of entropy).
pub fn generate_session_id() -> (r: String)
    ensures
        exists|bs: Seq<u8>| bs.len() == 32 && r@ == hex_of(bs),
        r@.len() == 64,
        forall|i: int| 0 <= i < r@.len() ==> is_hex_lower_char(#[trigger] r@[i]),
{
    let bytes = secure_random_bytes(32);
    let r = hex_encode(bytes.as_slice());
    proof {
        lemma_hex_of_shape(bytes@);
    }
    r
}

impl Session {
    /// Creates a record, drawing a fresh random id and the current time
    /// for any field not supplied. An expiry may only be supplied
    /// together with an issue time that does not exceed it, so that the
    /// record's invariant holds whatever the clock says.
    pub fn new(id: Option<String>, iat: Option<i64>, exp: Option<i64>) -> (r: Session)
        requires
            id matches Some(s) ==> forall|i: int| 0 <= i < s@.len() ==> #[trigger] s@[i] != '|',
            exp matches Some(e) ==> (iat matches Some(t) && t <= e),
        ensures
            r@.wf(),
            id matches Some(s) ==> r@.id == s@,
            id is None ==> r@.id.len() == 64 && (forall|i: int|
                0 <= i < r@.id.len() ==> is_hex_lower_char(#[trigger] r@.id[i])),
            iat matches Some(t) ==> r@.iat == t as int,
            r@.exp == (match exp {
                Some(e) => Some(e as int),
                None => None::<int>,
            }),
    {
        let id_v = match id {
            Some(s) => s,
            None => generate_session_id(),
        };
        let iat_v = match iat {
            Some(t) => t,
            None => now_timestamp(),
        };
        proof {
            if id is None {
                assert(forall|i: int| 0 <= i < id_v@.len() ==> #[trigger] id_v@[i] != '|');
            }
        }
        Session { id: id_v, iat: iat_v, exp }
    }

    pub fn id(&self) -> (r: &str)
        ensures
            r@ == self@.id,
    {
        self.id.as_str()
    }

    pub fn issued_at(&self) -> (r: i64)
        ensures
            r as int == self@.iat,
    {
        self.iat
    }

    pub fn expire(&self) -> (r: Option<i64>)
        ensures
            r matches Some(e) ==> self@.exp == Some(e as int),
            r is None ==> self@.exp is None,
    {
        self.exp
    }

    /// Whether the record is expired at the given time: true exactly when
    /// an expiry is present and strictly in the past.
    pub fn is_expired_at(&self, now: i64) -> (r: bool)
        ensures
            r == self@.expired_at(now as int),
    {
        match self.exp {
            Some(e) => e < now,
            None => false,
        }
    }

    /// Whether the record is expired now. A record with no expiry never
    /// expires, whatever the clock says.
    pub fn is_expired(&self) -> (r: bool)
        ensures
            self@.exp is None ==> r == false,
            r ==> self@.exp is Some,
    {
        let now = now_timestamp();
        self.is_expired_at(now)
    }

    /// The record's text form.
    pub fn encode(&self) -> (r: String)
        requires
            self@.wf(),
        ensures
            r@ == wire_of(self@),
    {
        let mut out = self.id.clone();
        proof {
            reveal_strlit("|");
        }
        out.append("|");
        let iat_str = i64_to_dec(self.iat);
        out.append(iat_str.as_str());
        out.append("|");
        match &self.exp {
            Some(e) => {
                let exp_str = i64_to_dec(*e);
                out.append(exp_str.as_str());
            },
            None => {},
        }
        proof {
            assert(out@ =~= wire_of(self@));
        }
        out
    }

    /// Parses a text form; fails on anything `encode` cannot produce.
    pub fn decode(encoded: &str) -> (r: Result<Session, SessionDecodeError>)
        ensures
            r matches Ok(sess) ==> parse_wire(encoded@) == Some(sess@),
            r is Err <==> parse_wire(encoded@) is None,
    {
        let len = encoded.unicode_len();
        let i = match find_char(encoded, '|') {
            Some(i) => i,
            None => {
                return Err(SessionDecodeError);
            },
        };
        proof {
            lemma_first_index_of(encoded@, '|');
        }
        let id = encoded.substring_char(0, i).to_owned();
        let rest = encoded.substring_char(i + 1, len);
        let j = match find_char(rest, '|') {
            Some(j) => j,
            None => {
                return Err(SessionDecodeError);
            },
        };
        proof {
            lemma_first_index_of(rest@, '|');
        }
        let rlen = rest.unicode_len();
        let iat_str = rest.substring_char(0, j);
        let exp_str = rest.substring_char(j + 1, rlen);
        let iat = match parse_i64_dec(iat_str) {
            Some(v) => v,
            None => {
                return Err(SessionDecodeError);
            },
        };
        if exp_str.unicode_len() == 0 {
            Ok(Session { id, iat, exp: None })
        } else {
            let e = match parse_i64_dec(exp_str) {
                Some(v) => v,
                None => {
                    return Err(SessionDecodeError);
                },
            };
            if e < iat {
                Err(SessionDecodeError)
            } else {
                Ok(Session { id, iat, exp: Some(e) })
            }
        }
    }

    /// The cookie value: the text form, base64-encoded for transport.
    pub fn encode_cookie(&self) -> (r: String)
        requires
            self@.wf(),
        ensures
            r@ == base64_of(wire_of(self@)),
    {
        let wire = self.encode();
        base64_encode(wire.as_str())
    }

    /// Decodes a cookie value. Exactly the values `encode_cookie` of a
    /// valid record produces are accepted, and give that record back;
    /// everything else — bad base64, bad payload — is a decode error,
    /// never a crash.
    pub fn decode_cookie(encoded: String) -> (r: Result<Session, SessionDecodeError>)
        ensures
            r matches Ok(sess) ==> sess@.wf() && encoded@ == base64_of(wire_of(sess@)),
            forall|m: SessionModel|
                m.wf() && encoded@ == base64_of(wire_of(m)) ==> (r matches Ok(sess) && sess@ == m),
    {
        let wire = match base64_decode(encoded.as_str()) {
            Some(w) => w,
            None => {
                proof {
                    assert forall|m: SessionModel|
                        m.wf() && encoded@ == base64_of(wire_of(m)) implies false by {
                        assert(exists|t: Seq<char>| encoded@ == base64_of(t));
                    }
                }
                return Err(SessionDecodeError);
            },
        };
        match Self::decode(wire.as_str()) {
            Ok(sess) => {
                proof {
                    lemma_parse_wire_sound(wire@, sess@);
                    assert forall|m: SessionModel|
                        m.wf() && encoded@ == base64_of(wire_of(m)) implies sess@ == m by {
                        assert(wire@ == wire_of(m));
                        lemma_wire_round_trip(m);
                    }
                }
                Ok(sess)
            },
            Err(e) => {
                proof {
                    assert forall|m: SessionModel|
                        m.wf() && encoded@ == base64_of(wire_of(m)) implies false by {
                        assert(wire@ == wire_of(m));
                        lemma_wire_round_trip(m);
                    }
                }
                Err(e)
            },
        }
    }
}

/// Reads the session cookie from the jar: absent is `Ok(None)`, a value
/// only a valid record encodes to is that record, anything else is a
/// decode error.
pub fn extract_session(jar: &CookieJar, config: &CookieConfig) -> (r: Result<
    Option<Session>,
    SessionDecodeError,
>)
    requires
        jar.wf(),
    ensures
        match r {
            Ok(None) => !jar@.contains_key(config.name@),
            Ok(Some(sess)) => jar@.contains_key(config.name@) && sess@.wf()
                && jar@[config.name@].value == base64_of(wire_of(sess@)) && (forall|
                m: SessionModel,
            |
                m.wf() && jar@[config.name@].value == base64_of(wire_of(m)) ==> sess@ == m),
            Err(_) => jar@.contains_key(config.name@) && (forall|m: SessionModel|
                m.wf() ==> jar@[config.name@].value != base64_of(wire_of(m))),
        },
{
    let cookie = match jar.get(config.name.as_str()) {
        Some(c) => c,
        None => {
            return Ok(None);
        },
    };
    let encoded = cookie.value.clone();
    match Session::decode_cookie(encoded) {
        Ok(sess) => Ok(Some(sess)),
        Err(e) => Err(e),
    }
}

/// Writes the session cookie: the given record's encoding, or a fresh
/// record (random id, issued now, no expiry) when none is given.
pub fn update_session(jar: CookieJar, config: CookieConfig, session: Option<Session>) -> (r:
    CookieJar)
    requires
        jar.wf(),
        session matches Some(s) ==> s@.wf(),
    ensures
        r.wf(),
        session matches Some(s) ==> r@ == jar@.insert(
            config.name@,
            cookie_of(config, base64_of(wire_of(s@))),
        ),
        session is None ==> exists|m: SessionModel| #![auto]
            m.wf() && m.exp is None && r@ == jar@.insert(
                config.name@,
                cookie_of(config, base64_of(wire_of(m))),
            ),
{
    let sess = match session {
        Some(s) => s,
        None => Session::new(None, None, None),
    };
    let encoded = sess.encode_cookie();
    jar.add(new_cookie(config, encoded))
}

} // verus!
