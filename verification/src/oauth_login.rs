//! The browser login flow's own logic: the percent-encoding of the loopback redirect, the
//! parsing of the one-shot `code` the backend redirects back with, and the provider choice.
//!
//! The dance (network and browser in the caller):
//!
//! 1. `GET {server}/auth/providers` — 0 ⇒ a clear error; 1 ⇒ used automatically; N ⇒ a menu.
//! 2. Bind a loopback server on `127.0.0.1:<ephemeral>` and open the browser at
//!    [`authorize_url`].
//! 3. The backend 302s a one-shot `code` back to the loopback; [`callback_code`] reads it.
//! 4. `POST {server}/auth/cli/exchange {code}` redeems the code for the token pair.

use vstd::prelude::*;
use vstd::utf8::{decode_utf8, encode_utf8, is_continuation_byte, valid_utf8};

use crate::text::{
    chars_of, decimal, decimal_chars, find_char, find_char_from, matches_at, push_all, push_str,
    second_piece, second_piece_bounds, skip_from, skip_token, string_from_chars, subvec, token, trim_start,
};

verus! {

broadcast use {vstd::utf8::encode_utf8_valid_utf8, vstd::utf8::encode_utf8_decode_utf8};

/// An RFC 3986 unreserved byte: `A-Z a-z 0-9 - _ . ~`.
pub open spec fn unreserved(b: u8) -> bool {
    ||| 65 <= b <= 90
    ||| 97 <= b <= 122
    ||| 48 <= b <= 57
    ||| b == 45
    ||| b == 95
    ||| b == 46
    ||| b == 126
}

/// The uppercase hex digit for `d < 16`.
pub open spec fn hex_upper(d: u8) -> char {
    if d < 10 {
        (48 + d) as char
    } else {
        (55 + d) as char
    }
}

/// How one byte is written: itself when unreserved, else `%XX` (uppercase hex).
pub open spec fn encode_byte(b: u8) -> Seq<char> {
    if unreserved(b) {
        seq![b as char]
    } else {
        seq!['%', hex_upper(b / 16), hex_upper(b % 16)]
    }
}

/// Percent-encoding of a byte sequence.
pub open spec fn encode_bytes(bs: Seq<u8>) -> Seq<char>
    decreases bs.len(),
{
    if bs.len() == 0 {
        Seq::empty()
    } else {
        encode_byte(bs[0]) + encode_bytes(bs.drop_first())
    }
}

/// What [`urlencode`] returns for the text `s`: the percent-encoding of its UTF-8 bytes.
pub open spec fn spec_urlencode(s: Seq<char>) -> Seq<char> {
    encode_bytes(encode_utf8(s))
}

/// Encoding distributes over concatenation.
pub proof fn lemma_encode_bytes_append(a: Seq<u8>, b: Seq<u8>)
    ensures
        encode_bytes(a + b) == encode_bytes(a) + encode_bytes(b),
    decreases a.len(),
{
    if a.len() > 0 {
        lemma_encode_bytes_append(a.drop_first(), b);
        assert((a + b).drop_first() =~= a.drop_first() + b);
        assert(encode_byte(a[0]) + (encode_bytes(a.drop_first()) + encode_bytes(b)) =~= (
        encode_byte(a[0]) + encode_bytes(a.drop_first())) + encode_bytes(b));
    } else {
        assert(a + b =~= b);
    }
}

fn hex_upper_char(d: u8) -> (c: char)
    requires
        d < 16,
    ensures
        c == hex_upper(d),
{
    if d < 10 {
        (48 + d) as char
    } else {
        (55 + d) as char
    }
}

/// Minimal percent-encoding for a query-string value: every byte that is not RFC 3986
/// unreserved becomes `%XX`.
pub fn urlencode(s: &str) -> (r: String)
    ensures
        r@ == spec_urlencode(s@),
{
    let bytes = s.as_bytes();
    let mut out: Vec<char> = Vec::new();
    let mut i: usize = 0;
    while i < bytes.len()
        invariant
            i <= bytes.len(),
            bytes@ == encode_utf8(s@),
            out@ == encode_bytes(bytes@.subrange(0, i as int)),
        decreases bytes.len() - i,
    {
        let b = bytes[i];
        let ghost before = out@;
        if (65 <= b && b <= 90) || (97 <= b && b <= 122) || (48 <= b && b <= 57) || b == 45 || b
            == 95 || b == 46 || b == 126 {
            out.push(b as char);
        } else {
            out.push('%');
            out.push(hex_upper_char(b / 16));
            out.push(hex_upper_char(b % 16));
        }
        proof {
            let pre = bytes@.subrange(0, i as int);
            assert(bytes@.subrange(0, i + 1) =~= pre + seq![b]);
            lemma_encode_bytes_append(pre, seq![b]);
            assert(seq![b].drop_first() =~= Seq::<u8>::empty());
            assert(encode_bytes(Seq::<u8>::empty()) =~= Seq::<char>::empty());
            assert(encode_bytes(seq![b]) == encode_byte(b) + encode_bytes(seq![b].drop_first()));
            assert(encode_bytes(seq![b]) =~= encode_byte(b));
            assert(out@ =~= before + encode_byte(b));
        }
        i = i + 1;
    }
    assert(bytes@.subrange(0, bytes@.len() as int) == bytes@);
    string_from_chars(out.as_slice())
}

/// The value of an ASCII hex digit (`0-9 a-f A-F`).
pub open spec fn hex_value(b: u8) -> Option<u8> {
    if 48 <= b <= 57 {
        Some((b - 48) as u8)
    } else if 97 <= b <= 102 {
        Some((b - 87) as u8)
    } else if 65 <= b <= 70 {
        Some((b - 55) as u8)
    } else {
        None
    }
}

/// The byte that the two hex digits `b1 b2` spell; `None` unless both are hex digits.
pub open spec fn radix16_pair(b1: u8, b2: u8) -> Option<u8> {
    match (hex_value(b1), hex_value(b2)) {
        (Some(h), Some(l)) => Some((16 * h + l) as u8),
        _ => None,
    }
}

/// Percent-decoding of a byte sequence: `%XX` → the byte, `+` → space, anything else (a `%`
/// not followed by two hex digits included) → itself.
pub open spec fn decode_bytes(bs: Seq<u8>) -> Seq<u8>
    decreases bs.len(),
{
    if bs.len() == 0 {
        Seq::empty()
    } else if bs[0] == 37 && 2 < bs.len() && radix16_pair(bs[1], bs[2]) is Some {
        seq![radix16_pair(bs[1], bs[2])->0] + decode_bytes(bs.subrange(3, bs.len() as int))
    } else if bs[0] == 43 {
        seq![32u8] + decode_bytes(bs.drop_first())
    } else {
        seq![bs[0]] + decode_bytes(bs.drop_first())
    }
}

/// The bytes [`urldecode`] decodes the text `s` to.
pub open spec fn decoded_bytes(s: Seq<char>) -> Seq<u8> {
    decode_bytes(encode_utf8(s))
}

/// `s` is decodable: in its UTF-8 bytes, no `%` that has three more bytes after it is followed,
/// three bytes on, by a UTF-8 continuation byte (the two bytes after such a `%` would split a
/// character, and a percent escape is never read across a character).
pub open spec fn url_decodable(s: Seq<char>) -> bool {
    forall|i: int|
        0 <= i && i + 3 < encode_utf8(s).len() && encode_utf8(s)[i] == 37 ==> !is_continuation_byte(
            #[trigger] encode_utf8(s)[i + 3],
        )
}

/// What `String::from_utf8_lossy` makes of `bytes`.
pub uninterp spec fn utf8_lossy(bytes: Seq<u8>) -> Seq<char>;

/// `String::from_utf8_lossy(bytes).into_owned()`. Stated: the result is determined by the bytes,
/// and valid UTF-8 decodes to its characters. Not stated: which U+FFFD replacements invalid
/// sequences get.
#[verifier::external_body]
pub(crate) fn from_utf8_lossy(bytes: &[u8]) -> (s: String)
    ensures
        s@ == utf8_lossy(bytes@),
        valid_utf8(bytes@) ==> s@ == decode_utf8(bytes@),
{
    String::from_utf8_lossy(bytes).into_owned()
}

fn hex_value_exec(b: u8) -> (r: Option<u8>)
    ensures
        r == hex_value(b),
{
    if 48 <= b && b <= 57 {
        Some(b - 48)
    } else if 97 <= b && b <= 102 {
        Some(b - 87)
    } else if 65 <= b && b <= 70 {
        Some(b - 55)
    } else {
        None
    }
}

fn radix16_pair_exec(b1: u8, b2: u8) -> (r: Option<u8>)
    ensures
        r == radix16_pair(b1, b2),
{
    match (hex_value_exec(b1), hex_value_exec(b2)) {
        (Some(h), Some(l)) => Some(16 * h + l),
        _ => None,
    }
}

/// Whether `s` is [`url_decodable`].
pub fn is_url_decodable(s: &str) -> (b: bool)
    ensures
        b == url_decodable(s@),
{
    let bytes = s.as_bytes();
    let mut i: usize = 0;
    while i < bytes.len()
        invariant
            bytes@ == encode_utf8(s@),
            i <= bytes.len(),
            forall|k: int|
                0 <= k < i && k + 3 < bytes@.len() && bytes@[k] == 37 ==> !is_continuation_byte(
                    #[trigger] bytes@[k + 3],
                ),
        decreases bytes.len() - i,
    {
        if bytes[i] == 37 && bytes.len() - i > 3 && 0x80 <= bytes[i + 3] && bytes[i + 3] <= 0xBF {
            return false;
        }
        i = i + 1;
    }
    true
}

/// Decode a percent-encoded query value (`+` → space, `%XX` → byte), then read the bytes as
/// UTF-8 (invalid sequences replaced).
pub fn urldecode(s: &str) -> (r: String)
    requires
        url_decodable(s@),
    ensures
        r@ == utf8_lossy(decoded_bytes(s@)),
        valid_utf8(decoded_bytes(s@)) ==> r@ == decode_utf8(decoded_bytes(s@)),
{
    let bytes = s.as_bytes();
    let n = bytes.len();
    let mut out: Vec<u8> = Vec::new();
    let mut i: usize = 0;
    assert(bytes@.subrange(0, n as int) == bytes@);
    while i < n
        invariant
            n == bytes.len(),
            i <= n,
            out@ + decode_bytes(bytes@.subrange(i as int, n as int)) == decode_bytes(bytes@),
        decreases n - i,
    {
        let ghost rest = bytes@.subrange(i as int, n as int);
        let ghost before = out@;
        if bytes[i] == 37 && n - i > 2 {
            match radix16_pair_exec(bytes[i + 1], bytes[i + 2]) {
                Some(b) => {
                    out.push(b);
                    assert(rest.subrange(3, rest.len() as int) =~= bytes@.subrange(i + 3, n as int));
                    assert(out@ + decode_bytes(bytes@.subrange(i + 3, n as int)) =~= before
                        + decode_bytes(rest));
                    i = i + 3;
                    continue ;
                },
                None => {},
            }
            out.push(37);
        } else if bytes[i] == 43 {
            out.push(32);
        } else {
            out.push(bytes[i]);
        }
        assert(rest.drop_first() =~= bytes@.subrange(i + 1, n as int));
        assert(out@ + decode_bytes(bytes@.subrange(i + 1, n as int)) =~= before + decode_bytes(rest));
        i = i + 1;
    }
    assert(out@ =~= decode_bytes(bytes@));
    from_utf8_lossy(out.as_slice())
}

/// The encoded form of `bs` as bytes (it is ASCII).
pub proof fn lemma_encoded_is_ascii(bs: Seq<u8>)
    ensures
        vstd::utf8::is_ascii_chars(encode_bytes(bs)),
    decreases bs.len(),
{
    if bs.len() > 0 {
        lemma_encoded_is_ascii(bs.drop_first());
        let e = encode_bytes(bs);
        let h = encode_byte(bs[0]);
        let t = encode_bytes(bs.drop_first());
        assert(e == h + t);
        assert forall|i: int| 0 <= i < e.len() implies '\0' <= #[trigger] e[i] <= '\u{7f}' by {
            if i < h.len() {
            } else {
                assert(e[i] == t[i - h.len()]);
            }
        }
    }
}

/// The ASCII text `c` as bytes.
pub open spec fn ascii_bytes(c: Seq<char>) -> Seq<u8> {
    c.map_values(|x: char| x as u8)
}

/// Decoding the encoded bytes of `bs`, followed by anything, gives back `bs` first.
pub proof fn lemma_decode_encoded(bs: Seq<u8>, rest: Seq<u8>)
    ensures
        decode_bytes(ascii_bytes(encode_bytes(bs)) + rest) == bs + decode_bytes(rest),
    decreases bs.len(),
{
    if bs.len() == 0 {
        assert(ascii_bytes(encode_bytes(bs)) + rest =~= rest);
        assert(bs + decode_bytes(rest) =~= decode_bytes(rest));
    } else {
        let b = bs[0];
        let tail = bs.drop_first();
        lemma_decode_encoded(tail, rest);
        let h = ascii_bytes(encode_byte(b));
        let t = ascii_bytes(encode_bytes(tail)) + rest;
        assert(ascii_bytes(encode_bytes(bs)) + rest =~= h + t);
        let all = h + t;
        if unreserved(b) {
            assert(h =~= seq![b]);
            assert(all[0] == b);
            assert(all.drop_first() =~= t);
        } else {
            let hi = b / 16;
            let lo = b % 16;
            assert(h =~= seq![37u8, hex_upper(hi) as u8, hex_upper(lo) as u8]);
            assert(radix16_pair(all[1], all[2]) == Some(b));
            assert(all.subrange(3, all.len() as int) =~= t);
        }
        assert(bs =~= seq![b] + tail);
        assert(bs + decode_bytes(rest) =~= seq![b] + (tail + decode_bytes(rest)));
    }
}

/// Decoding what [`urlencode`] produced gives back the original text: its bytes decode to the
/// UTF-8 bytes of the original, which are valid UTF-8 and decode to the original characters.
pub proof fn lemma_urldecode_urlencode(s: Seq<char>)
    ensures
        url_decodable(spec_urlencode(s)),
        decoded_bytes(spec_urlencode(s)) == encode_utf8(s),
        valid_utf8(decoded_bytes(spec_urlencode(s))),
        decode_utf8(decoded_bytes(spec_urlencode(s))) == s,
{
    let bs = encode_utf8(s);
    let e = encode_bytes(bs);
    lemma_encoded_is_ascii(bs);
    vstd::utf8::is_ascii_chars_encode_utf8(e);
    assert(encode_utf8(e) =~= ascii_bytes(e));
    lemma_decode_encoded(bs, Seq::empty());
    assert(ascii_bytes(e) + Seq::<u8>::empty() =~= ascii_bytes(e));
    assert(bs + Seq::<u8>::empty() =~= bs);
    assert forall|i: int|
        0 <= i && i + 3 < encode_utf8(e).len() && encode_utf8(e)[i] == 37 implies !is_continuation_byte(
        #[trigger] encode_utf8(e)[i + 3]) by {
        assert(encode_utf8(e)[i + 3] == e[i + 3] as u8);
    }
}

/// The characters of `code`.
pub open spec fn code_key() -> Seq<char> {
    seq!['c', 'o', 'd', 'e']
}

/// The raw value of the first `code=…` pair among the `&`-separated pairs of the query `q`
/// (`split('&').find_map(|kv| kv.split_once('=') …)`).
pub open spec fn code_in_query(q: Seq<char>) -> Option<Seq<char>>
    decreases q.len(),
{
    let a = find_char(q, '&');
    let kv = q.subrange(0, a as int);
    let e = find_char(kv, '=');
    if e < kv.len() && kv.subrange(0, e as int) == code_key() {
        Some(kv.subrange(e + 1int, kv.len() as int))
    } else if a < q.len() {
        code_in_query(q.subrange(a + 1int, q.len() as int))
    } else {
        None
    }
}

/// [`find_char`] is the index of the first `c`, or the length when there is none.
proof fn lemma_find_char_first(s: Seq<char>, c: char)
    ensures
        find_char(s, c) <= s.len(),
        forall|k: int| 0 <= k < find_char(s, c) ==> s[k] != c,
        find_char(s, c) < s.len() ==> s[find_char(s, c) as int] == c,
    decreases s.len(),
{
    if s.len() > 0 && s[0] != c {
        lemma_find_char_first(s.drop_first(), c);
        assert forall|k: int| 0 <= k < find_char(s, c) implies s[k] != c by {
            if k > 0 {
                assert(s[k] == s.drop_first()[k - 1]);
            }
        }
    }
}

/// A pair `kv` (without `&`) then `&` and the rest: the pair is what comes before the `&`.
proof fn lemma_split_pair(kv: Seq<char>, rest: Seq<char>)
    requires
        forall|k: int| 0 <= k < kv.len() ==> kv[k] != '&',
    ensures
        find_char(kv + seq!['&'] + rest, '&') == kv.len(),
        (kv + seq!['&'] + rest).subrange(0, kv.len() as int) == kv,
        (kv + seq!['&'] + rest).subrange(kv.len() + 1int, (kv + seq!['&'] + rest).len() as int)
            == rest,
        find_char(kv, '&') == kv.len(),
{
    let q = kv + seq!['&'] + rest;
    lemma_find_char_first(q, '&');
    lemma_find_char_first(kv, '&');
    assert(q[kv.len() as int] == '&');
    assert forall|k: int| 0 <= k < kv.len() implies q[k] != '&' by {
        assert(q[k] == kv[k]);
    }
    assert(q.subrange(0, kv.len() as int) =~= kv);
    assert(q.subrange(kv.len() + 1int, q.len() as int) =~= rest);
}

/// The key of the pair `kv` is `code` exactly when `kv` starts with `code=`.
proof fn lemma_pair_key_is_code(kv: Seq<char>)
    ensures
        (find_char(kv, '=') < kv.len() && kv.subrange(0, find_char(kv, '=') as int) == code_key())
            <==> (kv.len() >= 5 && kv.subrange(0, 5) == code_key().push('=')),
{
    let e = find_char(kv, '=');
    lemma_find_char_first(kv, '=');
    if kv.len() >= 5 && kv.subrange(0, 5) == code_key().push('=') {
        assert(kv[4] == kv.subrange(0, 5)[4]);
        assert forall|k: int| 0 <= k < 4 implies kv[k] != '=' by {
            assert(kv[k] == kv.subrange(0, 5)[k]);
        }
        assert(e == 4);
        assert(kv.subrange(0, 4) =~= code_key());
    }
    if e < kv.len() && kv.subrange(0, e as int) == code_key() {
        assert(kv.subrange(0, e as int).len() == e);
        assert(code_key().len() == 4);
        assert(e == 4);
        assert(kv[4] == '=');
        assert forall|k: int| 0 <= k < 4 implies kv[k] == code_key()[k] by {
            assert(kv[k] == kv.subrange(0, 4)[k]);
        }
        assert(kv.subrange(0, 5) =~= code_key().push('='));
    }
}

/// The first pair of a query that starts with `code=` gives the code: its value up to the next
/// `&` (or the end), whatever follows.
pub proof fn lemma_code_first_pair(v: Seq<char>, rest: Seq<char>)
    requires
        forall|k: int| 0 <= k < v.len() ==> v[k] != '&',
    ensures
        code_in_query(code_key() + seq!['='] + v + seq!['&'] + rest) == Some(v),
        code_in_query(code_key() + seq!['='] + v) == Some(v),
{
    let kv = code_key() + seq!['='] + v;
    assert forall|k: int| 0 <= k < kv.len() implies kv[k] != '&' by {
        if k >= 5 {
            assert(kv[k] == v[k - 5]);
        }
    }
    assert(kv.subrange(0, 5) =~= code_key().push('='));
    lemma_pair_key_is_code(kv);
    lemma_find_char_first(kv, '=');
    assert(kv[4] == '=');
    assert forall|k: int| 0 <= k < 4 implies kv[k] != '=' by {}
    assert(find_char(kv, '=') == 4);
    assert(kv.subrange(5, kv.len() as int) =~= v);
    lemma_split_pair(kv, rest);
    assert(kv + seq!['&'] + rest == code_key() + seq!['='] + v + seq!['&'] + rest);
    let q = kv + seq!['&'] + rest;
    assert(q.subrange(0, find_char(q, '&') as int) == kv);
    assert(kv.subrange(0, kv.len() as int) =~= kv);
}

/// A pair whose key is not `code` (or that has no `=`) is skipped: the code is looked for in
/// the pairs after it, and a query of that pair alone has none.
pub proof fn lemma_code_skips_other_pair(kv: Seq<char>, rest: Seq<char>)
    requires
        forall|k: int| 0 <= k < kv.len() ==> kv[k] != '&',
        !(kv.len() >= 5 && kv.subrange(0, 5) == code_key().push('=')),
    ensures
        code_in_query(kv + seq!['&'] + rest) == code_in_query(rest),
        code_in_query(kv) is None,
{
    lemma_pair_key_is_code(kv);
    lemma_split_pair(kv, rest);
    assert(kv.subrange(0, kv.len() as int) =~= kv);
}

/// The query of a request target: the text between its first `?` and the next `?` (or the
/// end) — `split('?').nth(1)`.
pub open spec fn query_of(t: Seq<char>) -> Option<Seq<char>> {
    second_piece(t, '?')
}

/// The raw (still percent-encoded) `code` value in the request target `t`.
pub open spec fn spec_code_value(t: Seq<char>) -> Option<Seq<char>> {
    match query_of(t) {
        Some(q) => code_in_query(q),
        None => None,
    }
}

/// [`code_in_query`] of `t[lo..qe]`.
fn code_in_range(t: &Vec<char>, lo: usize, qe: usize) -> (r: Option<String>)
    requires
        lo <= qe <= t.len(),
    ensures
        match code_in_query(t@.subrange(lo as int, qe as int)) {
            Some(v) => r matches Some(x) && x@ == v,
            None => r is None,
        },
{
    let key = chars_of("code");
    proof {
        reveal_strlit("code");
        assert(key@ =~= code_key());
    }
    let ghost q = t@.subrange(lo as int, qe as int);
    let mut st: usize = lo;
    loop
        invariant
            st <= qe <= t.len(),
            q == t@.subrange(lo as int, qe as int),
            key@ == code_key(),
            code_in_query(q) == code_in_query(t@.subrange(st as int, qe as int)),
        decreases qe - st,
    {
        let ghost q2 = t@.subrange(st as int, qe as int);
        let a = find_char_from(t, st, qe, '&');
        let e = find_char_from(t, st, a, '=');
        let ghost kv = t@.subrange(st as int, a as int);
        assert(q2.subrange(0, (a - st) as int) =~= kv);
        assert(find_char(q2, '&') == a - st);
        assert(find_char(kv, '=') == e - st);
        let kv_is_code = e < a && e - st == 4 && matches_at(t, st, &key);
        proof {
            if e < a && e - st == 4 {
                assert(kv.subrange(0, 4) =~= t@.subrange(st as int, st + 4));
            }
            if e < a && kv.subrange(0, (e - st) as int) == code_key() {
                assert(e - st == 4);
            }
        }
        if kv_is_code {
            let v = subvec(t, e + 1, a);
            assert(kv.subrange((e - st) + 1, (a - st) as int) =~= t@.subrange(e + 1, a as int));
            return Some(string_from_chars(v.as_slice()));
        }
        if a == qe {
            return None;
        }
        assert(q2.subrange((a - st) + 1, q2.len() as int) =~= t@.subrange(a + 1, qe as int));
        st = a + 1;
    }
}

/// The raw `code` value in the request target (`/callback?code=abc&x=y` → `abc`), before
/// percent-decoding; `None` when there is no query or no `code=` pair in it.
pub fn code_value(target: &str) -> (r: Option<String>)
    ensures
        match spec_code_value(target@) {
            Some(v) => r matches Some(x) && x@ == v,
            None => r is None,
        },
{
    let t = chars_of(target);
    match second_piece_bounds(&t, '?') {
        Some((lo, hi)) => code_in_range(&t, lo, hi),
        None => None,
    }
}

/// Pull the `code` query value out of a request target like `/callback?code=abc&x=y`,
/// percent-decoded.
pub fn code_from_target(target: &str) -> (r: Option<String>)
    requires
        spec_code_value(target@) matches Some(v) ==> url_decodable(v),
    ensures
        match spec_code_value(target@) {
            Some(v) => r matches Some(x) && x@ == utf8_lossy(decoded_bytes(v)) && (valid_utf8(
                decoded_bytes(v),
            ) ==> x@ == decode_utf8(decoded_bytes(v))),
            None => r is None,
        },
{
    match code_value(target) {
        Some(v) => Some(urldecode(v.as_str())),
        None => None,
    }
}

/// The target of an HTTP request head: the second whitespace-separated word of its first line
/// (empty when there is none).
pub open spec fn spec_request_target(head: Seq<char>) -> Seq<char> {
    let line = head.subrange(0, find_char(head, '\n') as int);
    token(trim_start(skip_token(trim_start(line))))
}

/// The request target of an HTTP request head (`GET /callback?code=… HTTP/1.1` →
/// `/callback?code=…`); empty when the first line has fewer than two words.
pub fn request_target(head: &str) -> (r: String)
    ensures
        r@ == spec_request_target(head@),
{
    let h = chars_of(head);
    let n = find_char_from(&h, 0, h.len(), '\n');
    assert(h@.subrange(0, h@.len() as int) == h@);
    let i0 = skip_from(&h, 0, n, true);
    let i1 = skip_from(&h, i0, n, false);
    let i2 = skip_from(&h, i1, n, true);
    let i3 = skip_from(&h, i2, n, false);
    proof {
        let line = h@.subrange(0, n as int);
        assert(h@.subrange(0, n as int).subrange(0, n as int) == line);
        let rest = h@.subrange(i2 as int, n as int);
        assert(skip_token(rest) == h@.subrange(i3 as int, n as int));
        assert(rest.subrange(0, rest.len() - skip_token(rest).len()) =~= h@.subrange(
            i2 as int,
            i3 as int,
        ));
    }
    string_from_chars(subvec(&h, i2, i3).as_slice())
}

/// The `code` a loopback callback request carries: [`code_from_target`] of its
/// [`request_target`]; `None` for noise such as `/favicon.ico`.
pub fn callback_code(head: &str) -> (r: Option<String>)
    requires
        spec_code_value(spec_request_target(head@)) matches Some(v) ==> url_decodable(v),
    ensures
        match spec_code_value(spec_request_target(head@)) {
            Some(v) => r matches Some(x) && x@ == utf8_lossy(decoded_bytes(v)) && (valid_utf8(
                decoded_bytes(v),
            ) ==> x@ == decode_utf8(decoded_bytes(v))),
            None => r is None,
        },
{
    let t = request_target(head);
    code_from_target(t.as_str())
}

/// The loopback redirect the backend sends the code to: `http://127.0.0.1:<port>/callback`.
pub fn redirect_url(port: u16) -> (r: String)
    ensures
        r@ == "http://127.0.0.1:"@ + decimal(port as nat) + "/callback"@,
{
    let mut v: Vec<char> = Vec::new();
    push_str(&mut v, "http://127.0.0.1:");
    push_all(&mut v, &decimal_chars(port as u64));
    push_str(&mut v, "/callback");
    string_from_chars(v.as_slice())
}

/// The provider's authorize URL with the loopback redirect:
/// `{server}/auth/providers/{id}/authorize?cli_redirect={urlencode(redirect)}`.
pub fn authorize_url(server: &str, provider_id: &str, port: u16) -> (r: String)
    ensures
        r@ == server@ + "/auth/providers/"@ + provider_id@ + "/authorize?cli_redirect="@
            + spec_urlencode("http://127.0.0.1:"@ + decimal(port as nat) + "/callback"@),
{
    let redirect = redirect_url(port);
    let mut v: Vec<char> = Vec::new();
    push_str(&mut v, server);
    push_str(&mut v, "/auth/providers/");
    push_str(&mut v, provider_id);
    push_str(&mut v, "/authorize?cli_redirect=");
    push_str(&mut v, urlencode(redirect.as_str()).as_str());
    string_from_chars(v.as_slice())
}

/// How many login providers the server offers decides the flow.
#[derive(Debug, Clone, Copy, PartialEq, Eq)]
pub enum ProviderPick {
    /// No provider: an error pointing at `--token`.
    NoProviders,
    /// Exactly one: used automatically.
    Only,
    /// Several: a menu.
    Menu,
}

/// 0 providers ⇒ error, 1 ⇒ that one, N ⇒ a menu.
pub fn provider_pick(count: usize) -> (r: ProviderPick)
    ensures
        r == (if count == 0 {
            ProviderPick::NoProviders
        } else if count == 1 {
            ProviderPick::Only
        } else {
            ProviderPick::Menu
        }),
{
    if count == 0 {
        ProviderPick::NoProviders
    } else if count == 1 {
        ProviderPick::Only
    } else {
        ProviderPick::Menu
    }
}

/// A provider's menu label: its id when it has no display name, else `"{display_name}  ({id})"`.
pub fn provider_label(id: &str, display_name: &str) -> (r: String)
    ensures
        display_name@.len() == 0 ==> r@ == id@,
        display_name@.len() > 0 ==> r@ == display_name@ + "  ("@ + id@ + ")"@,
{
    if display_name.is_empty() {
        return id.to_owned();
    }
    let mut v: Vec<char> = Vec::new();
    push_str(&mut v, display_name);
    push_str(&mut v, "  (");
    push_str(&mut v, id);
    push_str(&mut v, ")");
    string_from_chars(v.as_slice())
}

} // verus!
