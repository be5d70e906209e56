//! Character-level helpers: decimal numerals, searching, and splitting.

use vstd::prelude::*;

verus! {

// ---------------------------------------------------------------------------
// Decimal digits
// ---------------------------------------------------------------------------

pub open spec fn is_digit_char(c: char) -> bool {
    '0' <= c && c <= '9'
}

pub open spec fn digit_val(c: char) -> nat
    recommends
        is_digit_char(c),
{
    ((c as u32) - 48) as nat
}

pub open spec fn digit_char(d: nat) -> char
    recommends
        d < 10,
{
    if d == 0 {
        '0'
    } else if d == 1 {
        '1'
    } else if d == 2 {
        '2'
    } else if d == 3 {
        '3'
    } else if d == 4 {
        '4'
    } else if d == 5 {
        '5'
    } else if d == 6 {
        '6'
    } else if d == 7 {
        '7'
    } else if d == 8 {
        '8'
    } else {
        '9'
    }
}

/// The canonical decimal numeral of a natural number, most significant
/// digit first.
pub open spec fn dec_of(n: nat) -> Seq<char>
    decreases n,
{
    if n < 10 {
        seq![digit_char(n)]
    } else {
        dec_of(n / 10).push(digit_char(n % 10))
    }
}

/// The value of a digit string, reading left to right.
pub open spec fn dec_val(s: Seq<char>) -> nat
    decreases s.len(),
{
    if s.len() == 0 {
        0
    } else {
        dec_val(s.drop_last()) * 10 + digit_val(s.last())
    }
}

/// A canonical decimal numeral: nonempty, all digits, no leading zero.
pub open spec fn is_dec(s: Seq<char>) -> bool {
    &&& s.len() >= 1
    &&& forall|i: int| 0 <= i < s.len() ==> is_digit_char(#[trigger] s[i])
    &&& (s[0] == '0' ==> s.len() == 1)
}

pub proof fn lemma_dec_of_shape(n: nat)
    ensures
        dec_of(n).len() >= 1,
        forall|i: int| 0 <= i < dec_of(n).len() ==> is_digit_char(#[trigger] dec_of(n)[i]),
        n >= 1 ==> dec_of(n)[0] != '0',
        n < 10 ==> dec_of(n).len() == 1,
    decreases n,
{
    if n >= 10 {
        lemma_dec_of_shape(n / 10);
    }
}

pub proof fn lemma_digit_roundtrip(d: nat)
    requires
        d < 10,
    ensures
        is_digit_char(digit_char(d)),
        digit_val(digit_char(d)) == d,
{
    assert('0' as u32 == 48 && '1' as u32 == 49 && '2' as u32 == 50 && '3' as u32 == 51 && '4'
        as u32 == 52 && '5' as u32 == 53 && '6' as u32 == 54 && '7' as u32 == 55 && '8' as u32 == 56
        && '9' as u32 == 57);
}

pub proof fn lemma_dec_of_val(n: nat)
    ensures
        is_dec(dec_of(n)),
        dec_val(dec_of(n)) == n,
    decreases n,
{
    lemma_dec_of_shape(n);
    if n < 10 {
        lemma_digit_roundtrip(n);
        assert(dec_val(Seq::<char>::empty()) == 0);
        assert(dec_of(n).drop_last() =~= Seq::<char>::empty());
    } else {
        lemma_dec_of_val(n / 10);
        lemma_dec_of_shape(n / 10);
        lemma_digit_roundtrip(n % 10);
        assert(dec_of(n).drop_last() =~= dec_of(n / 10));
        assert(n == (n / 10) * 10 + n % 10) by (nonlinear_arith);
    }
}

pub proof fn lemma_dec_val_zero(s: Seq<char>)
    requires
        s.len() >= 1,
        forall|i: int| 0 <= i < s.len() ==> is_digit_char(#[trigger] s[i]),
        dec_val(s) == 0,
    ensures
        s[0] == '0',
    decreases s.len(),
{
    if s.len() > 1 {
        assert(dec_val(s.drop_last()) == 0);
        lemma_dec_val_zero(s.drop_last());
    }
}

/// Canonical numerals are exactly the image of `dec_of`.
pub proof fn lemma_dec_canonical(s: Seq<char>)
    requires
        is_dec(s),
    ensures
        dec_of(dec_val(s)) == s,
    decreases s.len(),
{
    if s.len() == 1 {
        assert(dec_val(s.drop_last()) == 0);
        assert(dec_val(s) == digit_val(s[0]));
        assert(dec_of(dec_val(s)) =~= s);
    } else {
        let dl = s.drop_last();
        assert(forall|i: int| 0 <= i < dl.len() ==> is_digit_char(#[trigger] dl[i]));
        assert(dl[0] == s[0]);
        assert(s[0] != '0');
        assert(is_dec(dl));
        if dec_val(dl) == 0 {
            lemma_dec_val_zero(dl);
            assert(false);
        }
        let a = dec_val(dl);
        let d = digit_val(s.last());
        assert(dec_val(s) == a * 10 + d);
        assert(a >= 1);
        assert(a * 10 + d >= 10) by (nonlinear_arith)
            requires
                a >= 1,
                d >= 0,
        ;
        assert((a * 10 + d) / 10 == a && (a * 10 + d) % 10 == d) by (nonlinear_arith)
            requires
                0 <= d < 10,
                a >= 0,
        ;
        assert(d < 10);
        lemma_dec_canonical(dl);
        assert(digit_char(d) == s.last());
        assert(dec_of(dec_val(s)) =~= s);
    }
}

/// Extending a digit string only grows its value.
pub proof fn lemma_dec_val_prefix(s: Seq<char>, j: int)
    requires
        0 <= j <= s.len(),
    ensures
        dec_val(s) >= dec_val(s.take(j)),
    decreases s.len() - j,
{
    if j == s.len() {
        assert(s.take(j) =~= s);
    } else {
        assert(s.take(j + 1).drop_last() =~= s.take(j));
        assert(dec_val(s.take(j + 1)) == dec_val(s.take(j)) * 10 + digit_val(s.take(j + 1).last()));
        assert(dec_val(s.take(j)) * 10 >= dec_val(s.take(j))) by (nonlinear_arith);
        lemma_dec_val_prefix(s, j + 1);
    }
}

fn digit_str(d: u64) -> (r: &'static str)
    requires
        d < 10,
    ensures
        r@ == seq![digit_char(d as nat)],
{
    proof {
        reveal_strlit("0");
        reveal_strlit("1");
        reveal_strlit("2");
        reveal_strlit("3");
        reveal_strlit("4");
        reveal_strlit("5");
        reveal_strlit("6");
        reveal_strlit("7");
        reveal_strlit("8");
        reveal_strlit("9");
    }
    let r = match d {
        0 => "0",
        1 => "1",
        2 => "2",
        3 => "3",
        4 => "4",
        5 => "5",
        6 => "6",
        7 => "7",
        8 => "8",
        _ => "9",
    };
    proof {
        assert(r@ =~= seq![digit_char(d as nat)]);
    }
    r
}

/// Renders `n` as its canonical decimal numeral.
pub fn u64_to_dec(n: u64) -> (r: String)
    ensures
        r@ == dec_of(n as nat),
    decreases n,
{
    if n < 10 {
        digit_str(n).to_owned()
    } else {
        let mut s = u64_to_dec(n / 10);
        s.append(digit_str(n % 10));
        proof {
            assert(s@ =~= dec_of(n as nat));
        }
        s
    }
}

fn digit_of_char(c: char) -> (d: u64)
    requires
        is_digit_char(c),
    ensures
        d == digit_val(c),
        d < 10,
{
    (c as u32 - 48) as u64
}

/// Parses a canonical decimal numeral; rejects anything else, and any value
/// that does not fit in a `u64`.
pub fn parse_u64_dec(s: &str) -> (r: Option<u64>)
    ensures
        r matches Some(v) ==> is_dec(s@) && dec_val(s@) == v,
        r is None ==> !is_dec(s@) || dec_val(s@) > u64::MAX,
{
    let len = s.unicode_len();
    if len == 0 {
        return None;
    }
    if s.get_char(0) == '0' && len != 1 {
        return None;
    }
    let mut acc: u64 = 0;
    let mut i: usize = 0;
    while i < len
        invariant
            0 <= i <= len,
            len == s@.len(),
            forall|j: int| 0 <= j < i ==> is_digit_char(#[trigger] s@[j]),
            acc == dec_val(s@.take(i as int)),
            s@[0] == '0' ==> len == 1,
        decreases len - i,
    {
        let c = s.get_char(i);
        if !('0' <= c && c <= '9') {
            return None;
        }
        let d = digit_of_char(c);
        if acc > (u64::MAX - d) / 10 {
            proof {
                let t = s@.take(i as int + 1);
                assert(t.drop_last() =~= s@.take(i as int));
                assert(dec_val(t) == acc * 10 + d);
                assert(acc * 10 + d > u64::MAX) by (nonlinear_arith)
                    requires
                        acc > (u64::MAX - d) / 10,
                        0 <= d < 10,
                ;
                lemma_dec_val_prefix(s@, i as int + 1);
            }
            return None;
        }
        proof {
            assert(acc * 10 + d <= u64::MAX) by (nonlinear_arith)
                requires
                    acc <= (u64::MAX - d) / 10,
                    0 <= d < 10,
            ;
            let t = s@.take(i as int + 1);
            assert(t.drop_last() =~= s@.take(i as int));
            assert(dec_val(t) == acc * 10 + d);
        }
        acc = acc * 10 + d;
        i += 1;
    }
    proof {
        assert(s@.take(len as int) =~= s@);
    }
    Some(acc)
}

// ---------------------------------------------------------------------------
// Searching
// ---------------------------------------------------------------------------

/// Index of the first occurrence of `c` in `s`, or -1.
pub open spec fn first_index_of(s: Seq<char>, c: char) -> int
    decreases s.len(),
{
    if s.len() == 0 {
        -1
    } else if s[0] == c {
        0
    } else {
        let r = first_index_of(s.subrange(1, s.len() as int), c);
        if r < 0 {
            -1
        } else {
            r + 1
        }
    }
}

pub proof fn lemma_first_index_of(s: Seq<char>, c: char)
    ensures
        first_index_of(s, c) >= 0 ==> {
            &&& first_index_of(s, c) < s.len()
            &&& s[first_index_of(s, c)] == c
            &&& forall|j: int| 0 <= j < first_index_of(s, c) ==> s[j] != c
        },
        first_index_of(s, c) < 0 ==> forall|j: int| 0 <= j < s.len() ==> s[j] != c,
    decreases s.len(),
{
    if s.len() > 0 && s[0] != c {
        let t = s.subrange(1, s.len() as int);
        lemma_first_index_of(t, c);
        assert(forall|j: int| 1 <= j < s.len() ==> s[j] == t[j - 1]);
    }
}

/// `first_index_of` is pinned down by "holds at r, not before".
pub proof fn lemma_first_index_unique(s: Seq<char>, c: char, i: int)
    requires
        0 <= i < s.len(),
        s[i] == c,
        forall|j: int| 0 <= j < i ==> s[j] != c,
    ensures
        first_index_of(s, c) == i,
{
    lemma_first_index_of(s, c);
    let r = first_index_of(s, c);
    if r < 0 {
        assert(s[i] != c);
        assert(false);
    }
    if r < i {
        assert(s[r] != c);
        assert(false);
    }
    if r > i {
        assert(s[i] != c);
        assert(false);
    }
}

/// Finds the first occurrence of `c` in `s`.
pub fn find_char(s: &str, c: char) -> (r: Option<usize>)
    ensures
        r matches Some(i) ==> i == first_index_of(s@, c),
        r is None ==> first_index_of(s@, c) == -1,
{
    let len = s.unicode_len();
    let mut i: usize = 0;
    while i < len
        invariant
            0 <= i <= len,
            len == s@.len(),
            forall|j: int| 0 <= j < i ==> s@[j] != c,
        decreases len - i,
    {
        if s.get_char(i) == c {
            proof {
                lemma_first_index_unique(s@, c, i as int);
            }
            return Some(i);
        }
        i += 1;
    }
    proof {
        lemma_first_index_of(s@, c);
        if first_index_of(s@, c) >= 0 {
            assert(s@[first_index_of(s@, c)] != c);
            assert(false);
        }
    }
    None
}

/// Character-wise string equality.
pub fn str_eq(a: &str, b: &str) -> (r: bool)
    ensures
        r == (a@ == b@),
{
    let alen = a.unicode_len();
    let blen = b.unicode_len();
    if alen != blen {
        return false;
    }
    let mut i: usize = 0;
    while i < alen
        invariant
            0 <= i <= alen,
            alen == a@.len(),
            alen == b@.len(),
            forall|j: int| 0 <= j < i ==> a@[j] == b@[j],
        decreases alen - i,
    {
        if a.get_char(i) != b.get_char(i) {
            return false;
        }
        i += 1;
    }
    proof {
        assert(a@ =~= b@);
    }
    true
}

// ---------------------------------------------------------------------------
// Substring containment
// ---------------------------------------------------------------------------

pub open spec fn contains_seq(s: Seq<char>, p: Seq<char>) -> bool {
    exists|i: int| 0 <= i && i + p.len() <= s.len() && #[trigger] s.subrange(i, i + p.len()) == p
}

/// Whether `p` occurs in `s` as a contiguous substring.
pub fn contains_str(s: &str, p: &str) -> (r: bool)
    ensures
        r == contains_seq(s@, p@),
{
    let slen = s.unicode_len();
    let plen = p.unicode_len();
    if plen > slen {
        return false;
    }
    if plen == 0 {
        proof {
            assert(s@.subrange(0, 0 + p@.len() as int) =~= p@);
            assert(contains_seq(s@, p@));
        }
        return true;
    }
    let mut i: usize = 0;
    while i <= slen - plen
        invariant
            0 <= i <= slen - plen + 1,
            1 <= plen <= slen,
            slen == s@.len(),
            plen == p@.len(),
            forall|k: int| 0 <= k < i ==> #[trigger] s@.subrange(k, k + p@.len()) != p@,
        decreases slen - i,
    {
        let mut j: usize = 0;
        let mut hit = true;
        while j < plen
            invariant
                0 <= j <= plen,
                i + plen <= slen,
                slen == s@.len(),
                plen == p@.len(),
                hit ==> forall|t: int| 0 <= t < j ==> s@[i + t] == p@[t],
                !hit ==> s@.subrange(i as int, i as int + p@.len()) != p@,
            decreases plen - j,
        {
            if s.get_char(i + j) != p.get_char(j) {
                proof {
                    assert(s@.subrange(i as int, i as int + p@.len())[j as int] != p@[j as int]);
                }
                hit = false;
                j = plen;
            } else {
                j += 1;
            }
        }
        if hit {
            proof {
                assert(s@.subrange(i as int, i as int + p@.len()) =~= p@);
            }
            return true;
        }
        i += 1;
    }
    proof {
        if contains_seq(s@, p@) {
            let w = choose|k: int|
                0 <= k && k + p@.len() <= s@.len() && #[trigger] s@.subrange(k, k + p@.len())
                    == p@;
            assert(s@.subrange(w, w + p@.len()) != p@);
            assert(false);
        }
    }
    false
}

// ---------------------------------------------------------------------------
// Splitting
// ---------------------------------------------------------------------------

/// Splits at every occurrence of `sep`; adjacent separators give empty parts.
pub open spec fn split_chars(s: Seq<char>, sep: char) -> Seq<Seq<char>>
    decreases s.len(),
{
    let i = first_index_of(s, sep);
    if 0 <= i < s.len() {
        seq![s.subrange(0, i)] + split_chars(s.subrange(i + 1, s.len() as int), sep)
    } else {
        seq![s]
    }
}

/// Splits `s` at every occurrence of `sep`.
pub fn split_str(s: &str, sep: char) -> (r: Vec<String>)
    ensures
        r.deep_view() == split_chars(s@, sep),
    decreases s@.len(),
{
    let len = s.unicode_len();
    match find_char(s, sep) {
        None => {
            let mut out: Vec<String> = Vec::new();
            out.push(s.to_owned());
            proof {
                assert(out.deep_view() =~= split_chars(s@, sep));
            }
            out
        },
        Some(i) => {
            proof {
                lemma_first_index_of(s@, sep);
            }
            let head = s.substring_char(0, i).to_owned();
            let rest = s.substring_char(i + 1, len);
            let mut out = split_str(rest, sep);
            out.insert(0, head);
            proof {
                assert(out.deep_view() =~= split_chars(s@, sep));
            }
            out
        },
    }
}

// ---------------------------------------------------------------------------
// Signed decimal numerals
// ---------------------------------------------------------------------------

/// The canonical decimal numeral of an integer: a `-` sign for negatives.
pub open spec fn dec_i64_of(v: int) -> Seq<char> {
    if v < 0 {
        seq!['-'] + dec_of((-v) as nat)
    } else {
        dec_of(v as nat)
    }
}

pub open spec fn is_dec_i64(s: Seq<char>) -> bool {
    if s.len() >= 1 && s[0] == '-' {
        let m = s.subrange(1, s.len() as int);
        is_dec(m) && 1 <= dec_val(m) <= 0x8000_0000_0000_0000
    } else {
        is_dec(s) && dec_val(s) <= 0x7fff_ffff_ffff_ffff
    }
}

pub open spec fn dec_i64_val(s: Seq<char>) -> int {
    if s.len() >= 1 && s[0] == '-' {
        -(dec_val(s.subrange(1, s.len() as int)) as int)
    } else {
        dec_val(s) as int
    }
}

pub proof fn lemma_dec_i64_of_val(v: int)
    requires
        i64::MIN <= v <= i64::MAX,
    ensures
        is_dec_i64(dec_i64_of(v)),
        dec_i64_val(dec_i64_of(v)) == v,
{
    if v < 0 {
        let m = (-v) as nat;
        lemma_dec_of_val(m);
        lemma_dec_of_shape(m);
        assert(dec_i64_of(v).subrange(1, dec_i64_of(v).len() as int) =~= dec_of(m));
    } else {
        lemma_dec_of_val(v as nat);
        lemma_dec_of_shape(v as nat);
        assert(dec_i64_of(v)[0] != '-');
    }
}

pub proof fn lemma_dec_i64_canonical(s: Seq<char>)
    requires
        is_dec_i64(s),
    ensures
        dec_i64_of(dec_i64_val(s)) == s,
        i64::MIN <= dec_i64_val(s) <= i64::MAX,
{
    if s.len() >= 1 && s[0] == '-' {
        let m = s.subrange(1, s.len() as int);
        lemma_dec_canonical(m);
        assert(dec_i64_of(dec_i64_val(s)) =~= s);
    } else {
        lemma_dec_canonical(s);
    }
}

/// Renders `v` as its canonical decimal numeral.
pub fn i64_to_dec(v: i64) -> (r: String)
    ensures
        r@ == dec_i64_of(v as int),
{
    if v >= 0 {
        u64_to_dec(v as u64)
    } else {
        let mag: u64 = if v == i64::MIN {
            9223372036854775808u64
        } else {
            (-v) as u64
        };
        proof {
            reveal_strlit("-");
        }
        let mut s = "-".to_owned();
        let digits = u64_to_dec(mag);
        s.append(digits.as_str());
        proof {
            assert(s@ =~= dec_i64_of(v as int));
        }
        s
    }
}

/// Parses a canonical signed decimal numeral that fits in an `i64`.
pub fn parse_i64_dec(s: &str) -> (r: Option<i64>)
    ensures
        r matches Some(v) ==> is_dec_i64(s@) && dec_i64_val(s@) == v,
        r is None ==> !is_dec_i64(s@),
{
    let len = s.unicode_len();
    if len >= 1 && s.get_char(0) == '-' {
        let rest = s.substring_char(1, len);
        match parse_u64_dec(rest) {
            Some(m) => {
                if m == 0 || m > 9223372036854775808u64 {
                    return None;
                }
                if m == 9223372036854775808u64 {
                    Some(i64::MIN)
                } else {
                    Some(-(m as i64))
                }
            },
            None => {
                proof {
                    if is_dec_i64(s@) {
                        lemma_dec_i64_canonical(s@);
                    }
                }
                None
            },
        }
    } else {
        match parse_u64_dec(s) {
            Some(m) => {
                if m > 0x7fff_ffff_ffff_ffffu64 {
                    return None;
                }
                Some(m as i64)
            },
            None => None,
        }
    }
}

// ---------------------------------------------------------------------------
// Percent-encoding
// ---------------------------------------------------------------------------

/// Characters a URL query value carries unescaped.
pub open spec fn is_unreserved(c: char) -> bool {
    ('A' <= c && c <= 'Z') || ('a' <= c && c <= 'z') || ('0' <= c && c <= '9') || c == '-' || c
        == '.' || c == '_' || c == '~'
}

pub open spec fn hex_upper_char(d: nat) -> char
    recommends
        d < 16,
{
    if d < 10 {
        digit_char(d)
    } else if d == 10 {
        'A'
    } else if d == 11 {
        'B'
    } else if d == 12 {
        'C'
    } else if d == 13 {
        'D'
    } else if d == 14 {
        'E'
    } else {
        'F'
    }
}

/// `%XX` escapes, one per byte.
pub open spec fn pct_escape_bytes(bs: Seq<u8>) -> Seq<char>
    decreases bs.len(),
{
    if bs.len() == 0 {
        Seq::<char>::empty()
    } else {
        pct_escape_bytes(bs.drop_last()) + seq![
            '%',
            hex_upper_char((bs.last() / 16) as nat),
            hex_upper_char((bs.last() % 16) as nat),
        ]
    }
}

/// How one character appears in a percent-encoded string: unreserved
/// characters stand as themselves, everything else as the escapes of its
/// UTF-8 bytes.
pub open spec fn pct_char_of(c: char) -> Seq<char> {
    if is_unreserved(c) {
        seq![c]
    } else {
        pct_escape_bytes(vstd::utf8::encode_utf8(seq![c]))
    }
}

pub open spec fn pct_of(s: Seq<char>) -> Seq<char>
    decreases s.len(),
{
    if s.len() == 0 {
        Seq::<char>::empty()
    } else {
        pct_of(s.drop_last()) + pct_char_of(s.last())
    }
}

fn hex_upper_str(d: u8) -> (r: &'static str)
    requires
        d < 16,
    ensures
        r@ == seq![hex_upper_char(d as nat)],
{
    if d < 10 {
        digit_str(d as u64)
    } else {
        proof {
            reveal_strlit("A");
            reveal_strlit("B");
            reveal_strlit("C");
            reveal_strlit("D");
            reveal_strlit("E");
            reveal_strlit("F");
        }
        let r = match d {
            10 => "A",
            11 => "B",
            12 => "C",
            13 => "D",
            14 => "E",
            _ => "F",
        };
        proof {
            assert(r@ =~= seq![hex_upper_char(d as nat)]);
        }
        r
    }
}

/// Percent-encodes `s` for use as a URL query value.
pub fn pct_encode(s: &str) -> (r: String)
    ensures
        r@ == pct_of(s@),
{
    let len = s.unicode_len();
    let mut out = String::new();
    let mut i: usize = 0;
    while i < len
        invariant
            0 <= i <= len,
            len == s@.len(),
            out@ == pct_of(s@.take(i as int)),
        decreases len - i,
    {
        let piece = s.substring_char(i, i + 1);
        proof {
            assert(piece@ =~= seq![s@[i as int]]);
        }
        let c = s.get_char(i);
        if ('A' <= c && c <= 'Z') || ('a' <= c && c <= 'z') || ('0' <= c && c <= '9') || c == '-'
            || c == '.' || c == '_' || c == '~' {
            out.append(piece);
            proof {
                assert(s@.take(i as int + 1).drop_last() =~= s@.take(i as int));
                assert(out@ =~= pct_of(s@.take(i as int + 1)));
            }
        } else {
            let bs = piece.as_bytes();
            proof {
                assert(bs@ == vstd::utf8::encode_utf8(seq![s@[i as int]]));
            }
            let blen = bs.len();
            let mut k: usize = 0;
            while k < blen
                invariant
                    0 <= k <= blen,
                    blen == bs@.len(),
                    bs@ == vstd::utf8::encode_utf8(seq![s@[i as int]]),
                    !is_unreserved(s@[i as int]),
                    out@ == pct_of(s@.take(i as int)) + pct_escape_bytes(bs@.take(k as int)),
                decreases blen - k,
            {
                let b = bs[k];
                proof {
                    reveal_strlit("%");
                }
                out.append("%");
                out.append(hex_upper_str(b / 16));
                out.append(hex_upper_str(b % 16));
                proof {
                    assert(bs@.take(k as int + 1).drop_last() =~= bs@.take(k as int));
                    assert(out@ =~= pct_of(s@.take(i as int)) + pct_escape_bytes(
                        bs@.take(k as int + 1),
                    ));
                }
                k += 1;
            }
            proof {
                assert(bs@.take(blen as int) =~= bs@);
                assert(s@.take(i as int + 1).drop_last() =~= s@.take(i as int));
                assert(out@ =~= pct_of(s@.take(i as int + 1)));
            }
        }
        i += 1;
    }
    proof {
        assert(s@.take(len as int) =~= s@);
    }
    out
}

// ---------------------------------------------------------------------------
// URLs
// ---------------------------------------------------------------------------

pub open spec fn is_alpha_char(c: char) -> bool {
    ('a' <= c && c <= 'z') || ('A' <= c && c <= 'Z')
}

pub open spec fn is_scheme_char(c: char) -> bool {
    is_alpha_char(c) || is_digit_char(c) || c == '+' || c == '-' || c == '.'
}

/// An absolute URL as this crate accepts one: a scheme, `://`, and a
/// nonempty remainder.
pub open spec fn is_absolute_url(s: Seq<char>) -> bool {
    let i = first_index_of(s, ':');
    &&& 1 <= i
    &&& i + 3 < s.len()
    &&& is_alpha_char(s[0])
    &&& (forall|j: int| 0 <= j < i ==> is_scheme_char(#[trigger] s[j]))
    &&& s[i + 1] == '/'
    &&& s[i + 2] == '/'
}

pub open spec fn scheme_of(s: Seq<char>) -> Seq<char> {
    s.subrange(0, first_index_of(s, ':'))
}

pub open spec fn is_host_end(c: char) -> bool {
    c == '/' || c == ':' || c == '?' || c == '#'
}

pub open spec fn host_len_from(s: Seq<char>) -> int
    decreases s.len(),
{
    if s.len() == 0 {
        0
    } else if is_host_end(s[0]) {
        0
    } else {
        1 + host_len_from(s.subrange(1, s.len() as int))
    }
}

/// The host part of an absolute URL: what stands between `://` and the
/// first `/`, `:`, `?` or `#`, or the end.
pub open spec fn host_of(s: Seq<char>) -> Seq<char> {
    let start = first_index_of(s, ':') + 3;
    let rest = s.subrange(start, s.len() as int);
    rest.subrange(0, host_len_from(rest))
}

pub proof fn lemma_host_len(s: Seq<char>)
    ensures
        0 <= host_len_from(s) <= s.len(),
        forall|j: int| 0 <= j < host_len_from(s) ==> !is_host_end(#[trigger] s[j]),
        host_len_from(s) < s.len() ==> is_host_end(s[host_len_from(s)]),
    decreases s.len(),
{
    if s.len() > 0 && !is_host_end(s[0]) {
        let t = s.subrange(1, s.len() as int);
        lemma_host_len(t);
        assert(forall|j: int| 1 <= j < s.len() ==> s[j] == t[j - 1]);
    }
}

pub proof fn lemma_host_len_unique(s: Seq<char>, m: int)
    requires
        0 <= m <= s.len(),
        forall|j: int| 0 <= j < m ==> !is_host_end(#[trigger] s[j]),
        m < s.len() ==> is_host_end(s[m]),
    ensures
        host_len_from(s) == m,
{
    lemma_host_len(s);
    let h = host_len_from(s);
    if h < m {
        assert(!is_host_end(s[h]));
        assert(false);
    }
    if m < h {
        assert(!is_host_end(s[m]));
        assert(false);
    }
}

/// Whether `s` is an absolute URL: a scheme, `://`, and a nonempty
/// remainder.
pub fn check_absolute_url(s: &str) -> (r: bool)
    ensures
        r == is_absolute_url(s@),
{
    let len = s.unicode_len();
    let i = match find_char(s, ':') {
        Some(i) => i,
        None => {
            return false;
        },
    };
    proof {
        lemma_first_index_of(s@, ':');
    }
    if i < 1 || len < 4 || i > len - 4 {
        return false;
    }
    if s.get_char(i + 1) != '/' || s.get_char(i + 2) != '/' {
        return false;
    }
    let c0 = s.get_char(0);
    if !(('a' <= c0 && c0 <= 'z') || ('A' <= c0 && c0 <= 'Z')) {
        return false;
    }
    let mut j: usize = 1;
    while j < i
        invariant
            1 <= j <= i,
            i == first_index_of(s@, ':'),
            i + 3 < s@.len(),
            is_alpha_char(s@[0]),
            s@[i + 1] == '/',
            s@[i + 2] == '/',
            forall|k: int| 0 <= k < j ==> is_scheme_char(#[trigger] s@[k]),
        decreases i - j,
    {
        let c = s.get_char(j);
        if !(('a' <= c && c <= 'z') || ('A' <= c && c <= 'Z') || ('0' <= c && c <= '9') || c == '+'
            || c == '-' || c == '.') {
            return false;
        }
        j += 1;
    }
    true
}

// ---------------------------------------------------------------------------
// Joining
// ---------------------------------------------------------------------------

/// The elements of `xs` joined with single spaces.
pub open spec fn join_space(xs: Seq<Seq<char>>) -> Seq<char>
    decreases xs.len(),
{
    if xs.len() == 0 {
        Seq::<char>::empty()
    } else if xs.len() == 1 {
        xs[0]
    } else {
        join_space(xs.drop_last()) + seq![' '] + xs.last()
    }
}

/// Joins `parts` with single spaces.
pub fn join_with_space(parts: &Vec<String>) -> (r: String)
    ensures
        r@ == join_space(parts.deep_view()),
{
    let mut out = String::new();
    let n = parts.len();
    if n == 0 {
        proof {
            assert(parts.deep_view().len() == 0);
        }
        return out;
    }
    out.append(parts[0].as_str());
    let mut i: usize = 1;
    proof {
        assert(parts.deep_view().take(1)[0] == parts.deep_view()[0]);
        assert(out@ =~= join_space(parts.deep_view().take(1)));
    }
    while i < n
        invariant
            1 <= i <= n,
            n == parts.len(),
            parts.deep_view().len() == n,
            out@ == join_space(parts.deep_view().take(i as int)),
        decreases n - i,
    {
        proof {
            reveal_strlit(" ");
        }
        out.append(" ");
        out.append(parts[i].as_str());
        proof {
            let dv = parts.deep_view();
            assert(dv.take(i as int + 1).drop_last() =~= dv.take(i as int));
            assert(dv.take(i as int + 1).last() == dv[i as int]);
            assert(dv[i as int] == parts[i as int]@);
            assert(out@ =~= join_space(dv.take(i as int + 1)));
        }
        i += 1;
    }
    proof {
        assert(parts.deep_view().take(n as int) =~= parts.deep_view());
    }
    out
}

} // verus!
