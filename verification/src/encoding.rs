//! Text encodings, digests, randomness and the clock.
//!
//! Every function here that the verifier takes on trust calls one function of a library and says
//! what is relied on.
use base64::Engine;
use rand::RngCore;
use sha2::Digest;
use vstd::prelude::*;
use vstd::utf8::*;

verus! {

// ---------------------------------------------------------------------------
// Base64
// ---------------------------------------------------------------------------

/// The base64 symbol for a number below 64, in the standard or the URL-safe alphabet.
pub open spec fn b64_symbol(v: int, url: bool) -> char {
    if v < 26 {
        ('A' as int + v) as char
    } else if v < 52 {
        ('a' as int + (v - 26)) as char
    } else if v < 62 {
        ('0' as int + (v - 52)) as char
    } else if v == 62 {
        if url {
            '-'
        } else {
            '+'
        }
    } else if url {
        '_'
    } else {
        '/'
    }
}

/// Base64 of `data`: four symbols for every three bytes. A rest of one or two bytes takes two or
/// three symbols, which padding brings to four in the standard alphabet.
pub open spec fn b64_text(data: Seq<u8>, url: bool) -> Seq<char>
    decreases data.len(),
{
    if data.len() == 0 {
        Seq::empty()
    } else if data.len() == 1 {
        let rest = seq![b64_symbol(data[0] as int / 4, url), b64_symbol(data[0] % 4 * 16, url)];
        if url {
            rest
        } else {
            rest + seq!['=', '=']
        }
    } else if data.len() == 2 {
        let rest = seq![
            b64_symbol(data[0] as int / 4, url),
            b64_symbol(data[0] % 4 * 16 + data[1] / 16, url),
            b64_symbol(data[1] % 16 * 4, url),
        ];
        if url {
            rest
        } else {
            rest + seq!['=']
        }
    } else {
        seq![
            b64_symbol(data[0] as int / 4, url),
            b64_symbol(data[0] % 4 * 16 + data[1] / 16, url),
            b64_symbol(data[1] % 16 * 4 + data[2] / 64, url),
            b64_symbol(data[2] as int % 64, url),
        ] + b64_text(data.skip(3), url)
    }
}

/// Padded base64 of `data`, in the standard alphabet.
pub open spec fn b64(data: Seq<u8>) -> Seq<char> {
    b64_text(data, false)
}

/// Unpadded base64 of `data`, in the URL-safe alphabet.
pub open spec fn b64_url(data: Seq<u8>) -> Seq<char> {
    b64_text(data, true)
}

/// The message with which `STANDARD.decode` turns `text` down (`DecodeError`'s `Display`).
pub uninterp spec fn b64_complaint(text: Seq<char>) -> Seq<char>;

/// What decoding `text` gives: the bytes that it is the base64 of, or the decoder's message.
pub open spec fn b64_decoded(text: Seq<char>) -> Result<Seq<u8>, Seq<char>> {
    if exists|data: Seq<u8>| #[trigger] b64(data) == text {
        Ok(choose|data: Seq<u8>| #[trigger] b64(data) == text)
    } else {
        Err(b64_complaint(text))
    }
}

/// Whether `c` is an ASCII letter or digit.
pub open spec fn is_alphanumeric(c: char) -> bool {
    'a' <= c <= 'z' || 'A' <= c <= 'Z' || '0' <= c <= '9'
}

/// Whether `s` consists of symbols of the standard base64 alphabet and padding.
pub open spec fn is_b64_text(s: Seq<char>) -> bool {
    forall|i: int|
        0 <= i < s.len() ==> is_alphanumeric(#[trigger] s[i]) || s[i] == '+' || s[i] == '/' || s[i]
            == '='
}

/// Whether `s` consists of symbols of the URL-safe base64 alphabet.
pub open spec fn is_b64_url_text(s: Seq<char>) -> bool {
    forall|i: int|
        0 <= i < s.len() ==> is_alphanumeric(#[trigger] s[i]) || s[i] == '-' || s[i] == '_'
}

/// Length and alphabet of padded base64.
pub proof fn lemma_b64_shape(data: Seq<u8>)
    ensures
        b64(data).len() == (data.len() + 2) / 3 * 4,
        is_b64_text(b64(data)),
    decreases data.len(),
{
    if data.len() > 2 {
        lemma_b64_shape(data.skip(3));
    }
}

/// Length and alphabet of URL-safe base64.
pub proof fn lemma_b64_url_shape(data: Seq<u8>)
    ensures
        b64_url(data).len() == (data.len() * 4 + 2) / 3,
        is_b64_url_text(b64_url(data)),
    decreases data.len(),
{
    if data.len() > 2 {
        lemma_b64_url_shape(data.skip(3));
    }
}

/// Different numbers have different symbols.
proof fn lemma_symbol_injective(v: int, w: int)
    requires
        0 <= v < 64,
        0 <= w < 64,
        b64_symbol(v, false) == b64_symbol(w, false),
    ensures
        v == w,
{
}

/// No symbol is the padding.
proof fn lemma_symbol_is_not_padding(v: int)
    requires
        0 <= v < 64,
    ensures
        b64_symbol(v, false) != '=',
{
}

/// The first four symbols of a base64 text.
proof fn lemma_b64_head(d: Seq<u8>)
    requires
        d.len() > 0,
    ensures
        b64(d).len() >= 4,
        b64(d)[0] == b64_symbol(d[0] as int / 4, false),
        d.len() == 1 ==> b64(d)[1] == b64_symbol(d[0] % 4 * 16, false) && b64(d)[2] == '=',
        d.len() >= 2 ==> b64(d)[1] == b64_symbol(d[0] % 4 * 16 + d[1] / 16, false),
        d.len() == 2 ==> b64(d)[2] == b64_symbol(d[1] % 16 * 4, false) && b64(d)[3] == '=',
        d.len() >= 3 ==> b64(d)[2] == b64_symbol(d[1] % 16 * 4 + d[2] / 64, false) && b64(d)[3]
            == b64_symbol(d[2] as int % 64, false) && b64(d).skip(4) == b64(d.skip(3)),
{
    if d.len() >= 3 {
        assert(b64(d).skip(4) =~= b64(d.skip(3)));
    }
}

/// Different bytes have different base64 texts.
pub proof fn lemma_b64_injective(a: Seq<u8>, b: Seq<u8>)
    requires
        b64(a) == b64(b),
    ensures
        a == b,
    decreases a.len(),
{
    lemma_b64_shape(a);
    lemma_b64_shape(b);
    if a.len() == 0 || b.len() == 0 {
        assert(a =~= b);
    } else {
        lemma_b64_head(a);
        lemma_b64_head(b);
        lemma_symbol_injective(a[0] as int / 4, b[0] as int / 4);
        if a.len() >= 3 && b.len() >= 3 {
            lemma_b64_injective(a.skip(3), b.skip(3));
            lemma_symbol_injective(a[0] % 4 * 16 + a[1] / 16, b[0] % 4 * 16 + b[1] / 16);
            lemma_symbol_injective(a[1] % 16 * 4 + a[2] / 64, b[1] % 16 * 4 + b[2] / 64);
            lemma_symbol_injective(a[2] as int % 64, b[2] as int % 64);
            assert(a[0] == b[0]);
            assert(a[1] == b[1]);
            assert(a[2] == b[2]);
            assert(a =~= seq![a[0], a[1], a[2]] + a.skip(3));
            assert(b =~= seq![b[0], b[1], b[2]] + b.skip(3));
        } else if a.len() == 1 && b.len() == 1 {
            lemma_symbol_injective(a[0] % 4 * 16, b[0] % 4 * 16);
            assert(a =~= b);
        } else if a.len() == 2 && b.len() == 2 {
            lemma_symbol_injective(a[0] % 4 * 16 + a[1] / 16, b[0] % 4 * 16 + b[1] / 16);
            lemma_symbol_injective(a[1] % 16 * 4, b[1] % 16 * 4);
            assert(a[0] == b[0]);
            assert(a[1] == b[1]);
            assert(a =~= b);
        } else if a.len() == 1 {
            if b.len() == 2 {
                lemma_symbol_is_not_padding(b[1] % 16 * 4);
            } else {
                lemma_symbol_is_not_padding(b[1] % 16 * 4 + b[2] / 64);
            }
        } else if b.len() == 1 {
            if a.len() == 2 {
                lemma_symbol_is_not_padding(a[1] % 16 * 4);
            } else {
                lemma_symbol_is_not_padding(a[1] % 16 * 4 + a[2] / 64);
            }
        } else if a.len() == 2 {
            lemma_symbol_is_not_padding(b[2] as int % 64);
        } else {
            lemma_symbol_is_not_padding(a[2] as int % 64);
        }
    }
}

/// Bytes are read back from their base64 text.
pub proof fn law_b64_is_read_back(data: Seq<u8>)
    ensures
        b64_decoded(b64(data)) == Ok::<Seq<u8>, Seq<char>>(data),
{
    let found = choose|d: Seq<u8>| #[trigger] b64(d) == b64(data);
    assert(b64(found) == b64(data));
    lemma_b64_injective(found, data);
}

/// `base64`'s `STANDARD.encode`.
#[verifier::external_body]
pub(crate) fn b64_encode(data: &[u8]) -> (r: String)
    ensures
        r@ == b64(data@),
{
    base64::engine::general_purpose::STANDARD.encode(data)
}

/// The contents of a decoding result.
pub open spec fn bytes_or_text(r: Result<Vec<u8>, String>) -> Result<Seq<u8>, Seq<char>> {
    match r {
        Ok(bytes) => Ok(bytes@),
        Err(e) => Err(e@),
    }
}

/// Whether decoding `text` gives `bytes`.
pub open spec fn decodes_to(text: Seq<char>, bytes: Seq<u8>) -> bool {
    b64_decoded(text) == Ok::<Seq<u8>, Seq<char>>(bytes)
}

/// `base64`'s `STANDARD.decode`, with its error as text. It accepts the texts that `STANDARD.encode`
/// makes, and no others: padding has to be there and unused bits have to be zero.
#[verifier::external_body]
fn standard_decode(text: &str) -> (r: Result<Vec<u8>, String>)
    ensures
        r matches Ok(bytes) ==> b64(bytes@) == text@,
        r matches Err(e) ==> e@ == b64_complaint(text@) && (forall|data: Seq<u8>|
            #[trigger] b64(data) != text@),
{
    base64::engine::general_purpose::STANDARD.decode(text).map_err(|e| e.to_string())
}

/// Decodes base64.
pub(crate) fn b64_decode(text: &str) -> (r: Result<Vec<u8>, String>)
    ensures
        bytes_or_text(r) == b64_decoded(text@),
{
    let r = standard_decode(text);
    proof {
        if r is Ok {
            law_b64_is_read_back(r->Ok_0@);
        }
    }
    r
}

/// `base64`'s `URL_SAFE_NO_PAD.encode`.
#[verifier::external_body]
pub(crate) fn b64_url_encode(data: &[u8]) -> (r: String)
    ensures
        r@ == b64_url(data@),
{
    base64::engine::general_purpose::URL_SAFE_NO_PAD.encode(data)
}

// ---------------------------------------------------------------------------
// Percent-encoding
// ---------------------------------------------------------------------------

/// The upper-case hexadecimal digit for `d`.
pub open spec fn hex_digit(d: u8) -> char {
    if d < 10 {
        ('0' as u32 + d) as char
    } else {
        ('A' as u32 + d - 10) as char
    }
}

/// Whether `b` stands for itself in a percent-encoded text.
pub open spec fn is_unreserved(b: u8) -> bool {
    is_alphanumeric(b as char) || b as char == '-' || b as char == '_' || b as char == '.' || b as char
        == '~'
}

/// `bytes` with every byte that is not unreserved written as `%` and two hexadecimal digits.
pub open spec fn percent_encoded(bytes: Seq<u8>) -> Seq<char>
    decreases bytes.len(),
{
    if bytes.len() == 0 {
        Seq::empty()
    } else {
        let b = bytes.last();
        percent_encoded(bytes.drop_last()) + if is_unreserved(b) {
            seq![b as char]
        } else {
            seq!['%', hex_digit(b / 16), hex_digit(b % 16)]
        }
    }
}

/// The percent-encoded UTF-8 bytes of `s`.
pub open spec fn url_encoded(s: Seq<char>) -> Seq<char> {
    percent_encoded(encode_utf8(s))
}

/// `urlencoding::encode`: every byte except ASCII letters, digits, `-`, `_`, `.` and `~` is
/// percent-encoded.
#[verifier::external_body]
pub(crate) fn url_encode(s: &str) -> (r: String)
    ensures
        r@ == url_encoded(s@),
{
    urlencoding::encode(s).into_owned()
}

// ---------------------------------------------------------------------------
// HTTP header values
// ---------------------------------------------------------------------------

/// Whether `c` may stand in the value of an HTTP header.
pub open spec fn is_header_char(c: char) -> bool {
    ' ' <= c && c != '\u{7f}' || c == '\t'
}

/// Whether `s` may be the value of an HTTP header.
pub open spec fn is_header_value(s: Seq<char>) -> bool {
    forall|i: int| 0 <= i < s.len() ==> is_header_char(#[trigger] s[i])
}

/// `HeaderValue::from_str`: accepts exactly the texts without control characters of ASCII other than
/// tabs. Its error has one message.
#[verifier::external_body]
pub(crate) fn check_header_value(s: &str) -> (r: Result<(), String>)
    ensures
        r is Ok <==> is_header_value(s@),
        r matches Err(e) ==> e@ == "failed to parse header value"@,
{
    reqwest::header::HeaderValue::from_str(s).map(|_value| ()).map_err(|e| e.to_string())
}

// ---------------------------------------------------------------------------
// Digests, randomness, identifiers
// ---------------------------------------------------------------------------

/// The SHA-256 digest of `data` (`Sha256::digest`).
pub uninterp spec fn sha256(data: Seq<u8>) -> Seq<u8>;

/// `Sha256::digest`, whose output has 32 bytes.
#[verifier::external_body]
pub(crate) fn sha256_digest(data: &[u8]) -> (r: Vec<u8>)
    ensures
        r@ == sha256(data@),
        r@.len() == 32,
{
    sha2::Sha256::digest(data).to_vec()
}

/// 32 bytes from `rand`'s thread-local generator. Nothing is relied on but their number.
#[verifier::external_body]
pub(crate) fn random_bytes() -> (r: [u8; 32]) {
    let mut bytes = [0u8; 32];
    rand::thread_rng().fill_bytes(&mut bytes);
    bytes
}

/// Whether `c` is a lower-case hexadecimal digit.
pub open spec fn is_lower_hex(c: char) -> bool {
    '0' <= c <= '9' || 'a' <= c <= 'f'
}

/// Whether `s` is a version 4 UUID in its hyphenated lower-case form.
pub open spec fn is_uuid_v4(s: Seq<char>) -> bool {
    &&& s.len() == 36
    &&& forall|i: int|
        0 <= i < 36 ==> if i == 8 || i == 13 || i == 18 || i == 23 {
            #[trigger] s[i] == '-'
        } else {
            is_lower_hex(s[i])
        }
    &&& s[14] == '4'
    &&& s[19] == '8' || s[19] == '9' || s[19] == 'a' || s[19] == 'b'
}

/// `Uuid::new_v4`, as text: a random UUID of version 4 and the RFC variant.
#[verifier::external_body]
pub(crate) fn random_uuid() -> (r: String)
    ensures
        is_uuid_v4(r@),
{
    uuid::Uuid::new_v4().to_string()
}

// ---------------------------------------------------------------------------
// The clock
// ---------------------------------------------------------------------------

/// A reading of the system clock.
#[verifier::external_type_specification]
#[verifier::external_body]
pub struct ExSystemTime(std::time::SystemTime);

/// The error of a time span that would be negative.
#[verifier::external_type_specification]
#[verifier::external_body]
pub struct ExSystemTimeError(std::time::SystemTimeError);

/// The time span from the Unix epoch to `t` (`SystemTime::duration_since`).
pub uninterp spec fn epoch_span(t: std::time::SystemTime) -> Result<
    std::time::Duration,
    std::time::SystemTimeError,
>;

/// The whole seconds of a time span (`Duration::as_secs`).
pub uninterp spec fn whole_seconds(d: std::time::Duration) -> u64;

/// The whole milliseconds of a time span (`Duration::as_millis`).
pub uninterp spec fn whole_millis(d: std::time::Duration) -> u128;

/// The message of a time span's error (its `Display`).
pub uninterp spec fn span_complaint(e: std::time::SystemTimeError) -> Seq<char>;

/// `SystemTime::now`. Nothing is relied on.
pub assume_specification[ std::time::SystemTime::now ]() -> (r: std::time::SystemTime)
;

/// `SystemTime::duration_since`, applied to the Unix epoch.
#[verifier::external_body]
fn since_epoch(t: &std::time::SystemTime) -> (r: Result<
    std::time::Duration,
    std::time::SystemTimeError,
>)
    ensures
        r == epoch_span(*t),
{
    t.duration_since(std::time::UNIX_EPOCH)
}

/// `Duration::as_secs`.
pub assume_specification[ std::time::Duration::as_secs ](d: &std::time::Duration) -> (r: u64)
    ensures
        r == whole_seconds(*d),
;

/// `Duration::as_millis`.
pub assume_specification[ std::time::Duration::as_millis ](d: &std::time::Duration) -> (r: u128)
    ensures
        r == whole_millis(*d),
;

/// `SystemTimeError`'s `Display`.
#[verifier::external_body]
fn span_error_text(e: &std::time::SystemTimeError) -> (r: String)
    ensures
        r@ == span_complaint(*e),
{
    e.to_string()
}

/// Whole seconds since the Unix epoch when the clock reads `t`, or the message of the error for a
/// clock before the epoch.
pub open spec fn seconds_at(t: std::time::SystemTime) -> Result<u64, Seq<char>> {
    match epoch_span(t) {
        Ok(d) => Ok(whole_seconds(d)),
        Err(e) => Err(span_complaint(e)),
    }
}

/// Whole milliseconds since the Unix epoch when the clock reads `t`, or the message of the error
/// for a clock before the epoch.
pub open spec fn millis_at(t: std::time::SystemTime) -> Result<u128, Seq<char>> {
    match epoch_span(t) {
        Ok(d) => Ok(whole_millis(d)),
        Err(e) => Err(span_complaint(e)),
    }
}

/// The contents of a number of seconds.
pub open spec fn seconds_view(now: Result<u64, String>) -> Result<u64, Seq<char>> {
    match now {
        Ok(t) => Ok(t),
        Err(e) => Err(e@),
    }
}

/// The contents of a number of milliseconds.
pub open spec fn millis_view(now: Result<u128, String>) -> Result<u128, Seq<char>> {
    match now {
        Ok(t) => Ok(t),
        Err(e) => Err(e@),
    }
}

/// Whole seconds since the Unix epoch, by the system clock.
pub(crate) fn unix_seconds() -> (r: Result<u64, String>)
    ensures
        exists|t: std::time::SystemTime| seconds_view(r) == #[trigger] seconds_at(t),
{
    let t = std::time::SystemTime::now();
    let r = match since_epoch(&t) {
        Ok(d) => Ok(d.as_secs()),
        Err(e) => Err(span_error_text(&e)),
    };
    assert(seconds_view(r) == seconds_at(t));
    r
}

/// Whole milliseconds since the Unix epoch, by the system clock.
pub(crate) fn unix_millis() -> (r: Result<u128, String>)
    ensures
        exists|t: std::time::SystemTime| millis_view(r) == #[trigger] millis_at(t),
{
    let t = std::time::SystemTime::now();
    let r = match since_epoch(&t) {
        Ok(d) => Ok(d.as_millis()),
        Err(e) => Err(span_error_text(&e)),
    };
    assert(millis_view(r) == millis_at(t));
    r
}

/// The time is the clock's: the whole seconds or milliseconds since the epoch, or the clock's own account
/// of why there are none. The two are of the same reading.
pub proof fn law_time_is_the_clocks(t: std::time::SystemTime)
    ensures
        match epoch_span(t) {
            Ok(d) => seconds_at(t) == Ok::<u64, Seq<char>>(whole_seconds(d)) && millis_at(t) == Ok::<
                u128,
                Seq<char>,
            >(whole_millis(d)),
            Err(e) => seconds_at(t) == Err::<u64, Seq<char>>(span_complaint(e)) && millis_at(t)
                == Err::<u128, Seq<char>>(span_complaint(e)),
        },
{
}

/// What a byte is written as.
pub open spec fn percent_piece(b: u8) -> Seq<char> {
    if is_unreserved(b) {
        seq![b as char]
    } else {
        seq!['%', hex_digit(b / 16), hex_digit(b % 16)]
    }
}

/// The encoding goes from byte to byte.
proof fn lemma_percent_first(b: u8, rest: Seq<u8>)
    ensures
        percent_encoded(seq![b] + rest) == percent_piece(b) + percent_encoded(rest),
    decreases rest.len(),
{
    let all = seq![b] + rest;
    if rest.len() == 0 {
        assert(all.drop_last() =~= Seq::<u8>::empty());
        reveal_with_fuel(percent_encoded, 2);
        assert(percent_encoded(all) =~= percent_piece(b) + percent_encoded(rest));
    } else {
        assert(all.drop_last() =~= seq![b] + rest.drop_last());
        lemma_percent_first(b, rest.drop_last());
        assert(percent_encoded(all) =~= percent_piece(b) + percent_encoded(rest));
    }
}

/// Different digits are written differently.
proof fn lemma_hex_digits(a: u8, b: u8)
    requires
        a < 16,
        b < 16,
        hex_digit(a) == hex_digit(b),
    ensures
        a == b,
{
}

/// Different bytes are written differently.
proof fn lemma_percent_injective(a: Seq<u8>, b: Seq<u8>)
    requires
        percent_encoded(a) == percent_encoded(b),
    ensures
        a == b,
    decreases a.len(),
{
    if a.len() > 0 {
        assert(a =~= seq![a[0]] + a.skip(1));
        lemma_percent_first(a[0], a.skip(1));
        assert(percent_encoded(a).len() > 0);
    }
    if b.len() > 0 {
        assert(b =~= seq![b[0]] + b.skip(1));
        lemma_percent_first(b[0], b.skip(1));
        assert(percent_encoded(b).len() > 0);
    }
    if a.len() == 0 || b.len() == 0 {
        assert(a =~= b);
    } else {
        let p = percent_piece(a[0]);
        let q = percent_piece(b[0]);
        let x = percent_encoded(a.skip(1));
        let y = percent_encoded(b.skip(1));
        let whole = p + x;
        assert(whole == q + y);
        assert(whole[0] == p[0] && whole[0] == q[0]);
        assert(is_unreserved(a[0]) <==> is_unreserved(b[0]));
        if !is_unreserved(a[0]) {
            assert(whole[1] == p[1] && whole[1] == q[1]);
            assert(whole[2] == p[2] && whole[2] == q[2]);
            lemma_hex_digits(a[0] / 16, b[0] / 16);
            lemma_hex_digits(a[0] % 16, b[0] % 16);
        }
        assert(a[0] == b[0]);
        assert(whole.skip(p.len() as int) =~= x);
        assert(whole.skip(q.len() as int) =~= y);
        lemma_percent_injective(a.skip(1), b.skip(1));
    }
}

/// Different texts stay different in a URL, so that no two contacts share one.
pub proof fn law_urls_tell_texts_apart(a: Seq<char>, b: Seq<char>)
    requires
        url_encoded(a) == url_encoded(b),
    ensures
        a == b,
{
    broadcast use encode_utf8_decode_utf8;

    lemma_percent_injective(encode_utf8(a), encode_utf8(b));
    assert(decode_utf8(encode_utf8(a)) == a);
    assert(decode_utf8(encode_utf8(b)) == b);
}

}
