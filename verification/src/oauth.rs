//! Registration with Google OAuth 2.0: PKCE codes, the authorization URL and the requests.
use vstd::prelude::*;
use vstd::string::*;
use vstd::utf8::*;

use crate::encoding::{b64, b64_encode, b64_url, b64_url_encode, hex_digit, is_alphanumeric};
use crate::encoding::{is_b64_url_text, lemma_b64_url_shape, percent_encoded, random_bytes, sha256};
use crate::encoding::{sha256_digest, url_encode, url_encoded};
use crate::text::{lemma_split_join, lemma_split_whole, split};

verus! {

// ---------------------------------------------------------------------------
// PKCE
// ---------------------------------------------------------------------------

/// The code verifier that 32 random bytes make: 43 symbols of the URL-safe base64 alphabet.
pub fn code_verifier_from(bytes: &[u8; 32]) -> (r: String)
    ensures
        r@ == b64_url(bytes@),
        r@.len() == 43,
        is_b64_url_text(r@),
{
    proof {
        lemma_b64_url_shape(bytes@);
    }
    b64_url_encode(bytes)
}

/// Generates a random PKCE code verifier of 43 characters.
pub fn generate_code_verifier() -> (r: String)
    ensures
        exists|bytes: Seq<u8>| bytes.len() == 32 && r@ == #[trigger] b64_url(bytes),
        r@.len() == 43,
        is_b64_url_text(r@),
{
    let bytes = random_bytes();
    let r = code_verifier_from(&bytes);
    assert(bytes@.len() == 32);
    r
}

/// Computes the S256 code challenge of a code verifier.
pub fn generate_code_challenge(verifier: &str) -> (r: String)
    ensures
        r@ == b64_url(sha256(encode_utf8(verifier@))),
        r@.len() == 43,
        is_b64_url_text(r@),
{
    let digest = sha256_digest(verifier.as_bytes());
    proof {
        lemma_b64_url_shape(digest@);
    }
    b64_url_encode(digest.as_slice())
}

// ---------------------------------------------------------------------------
// The authorization URL
// ---------------------------------------------------------------------------

/// The texts of a list, with `sep` between them.
pub open spec fn joined(parts: Seq<Seq<char>>, sep: char) -> Seq<char>
    decreases parts.len(),
{
    if parts.len() == 0 {
        Seq::empty()
    } else if parts.len() == 1 {
        parts[0]
    } else {
        joined(parts.drop_last(), sep) + seq![sep] + parts.last()
    }
}

/// The texts of a list of string slices.
pub open spec fn slice_texts(parts: Seq<&str>) -> Seq<Seq<char>> {
    parts.map_values(|s: &str| s@)
}

/// Joins a list of texts with spaces between them.
fn join_with_spaces(parts: &[&str]) -> (r: String)
    ensures
        r@ == joined(slice_texts(parts@), ' '),
{
    proof {
        reveal_strlit(" ");
        assert(" "@ =~= seq![' ']);
    }
    let mut out = String::new();
    let ghost all = slice_texts(parts@);
    let mut i: usize = 0;
    assert(all.take(0) =~= Seq::<Seq<char>>::empty());
    while i < parts.len()
        invariant
            i <= parts@.len(),
            all == slice_texts(parts@),
            out@ == joined(all.take(i as int), ' '),
            " "@ == seq![' '],
        decreases parts@.len() - i,
    {
        if i > 0 {
            out.append(" ");
        }
        out.append(parts[i]);
        proof {
            let next = all.take(i as int + 1);
            assert(next.drop_last() =~= all.take(i as int));
            assert(next.last() == parts@[i as int]@);
        }
        i = i + 1;
    }
    assert(all.take(i as int) =~= all);
    out
}

/// Joining the pieces of a text gives the text back, and no piece contains the separator.
pub proof fn law_joining_undoes_splitting(s: Seq<char>, sep: char)
    ensures
        split(s, sep).len() > 0,
        joined(split(s, sep), sep) == s,
        forall|i: int| 0 <= i < split(s, sep).len() ==> !(#[trigger] split(s, sep)[i]).contains(sep),
    decreases s.len(),
{
    let parts = split(s, sep);
    if s.len() > 0 {
        let before = split(s.drop_last(), sep);
        law_joining_undoes_splitting(s.drop_last(), sep);
        if s.last() == sep {
            assert(parts.drop_last() =~= before);
            assert(joined(parts, sep) =~= s);
        } else {
            assert(parts.drop_last() =~= before.drop_last());
            assert(parts.last() == before.last().push(s.last()));
            assert(joined(parts, sep) =~= joined(before, sep).push(s.last()));
            assert(joined(before, sep).push(s.last()) =~= s);
        }
        assert forall|i: int| 0 <= i < parts.len() implies !(#[trigger] parts[i]).contains(sep) by {
            if s.last() == sep {
                if i < before.len() {
                    assert(parts[i] == before[i]);
                }
            } else if i < before.len() - 1 {
                assert(parts[i] == before[i]);
            } else {
                let last = before[before.len() - 1];
                assert(parts[i] == last.push(s.last()));
                if parts[i].contains(sep) {
                    let k = parts[i].index_of(sep);
                    assert(last[k] == sep);
                }
            }
        }
    } else {
        assert(joined(parts, sep) =~= s);
    }
}

/// Splitting joined texts gives the texts back, as long as none contains the separator.
pub proof fn law_splitting_undoes_joining(parts: Seq<Seq<char>>, sep: char)
    requires
        parts.len() > 0,
        forall|i: int| 0 <= i < parts.len() ==> !(#[trigger] parts[i]).contains(sep),
    ensures
        split(joined(parts, sep), sep) == parts,
    decreases parts.len(),
{
    lemma_split_whole(parts[parts.len() - 1], sep);
    if parts.len() > 1 {
        let rest = parts.drop_last();
        assert forall|i: int| 0 <= i < rest.len() implies !(#[trigger] rest[i]).contains(sep) by {
            assert(rest[i] == parts[i]);
        }
        law_splitting_undoes_joining(rest, sep);
        lemma_split_join(joined(rest, sep), parts.last(), sep);
        assert(rest + seq![parts.last()] =~= parts);
    } else {
        assert(seq![parts[0]] =~= parts);
    }
}

/// The scopes to ask for, by default those that identify the user.
pub open spec fn scope_text(scopes: Seq<Seq<char>>) -> Seq<char> {
    if scopes.len() == 0 {
        "openid email profile"@
    } else {
        joined(scopes, ' ')
    }
}

/// The authorization URL.
pub open spec fn auth_url(
    client_id: Seq<char>,
    redirect_uri: Seq<char>,
    code_challenge: Seq<char>,
    scopes: Seq<Seq<char>>,
) -> Seq<char> {
    "https://accounts.google.com/o/oauth2/v2/auth?client_id="@ + url_encoded(client_id)
        + "&redirect_uri="@ + url_encoded(redirect_uri) + "&response_type=code&scope="@
        + url_encoded(scope_text(scopes)) + "&code_challenge="@ + url_encoded(code_challenge)
        + "&code_challenge_method=S256&access_type=offline"@
}

/// Builds a Google OAuth 2.0 authorization URL with PKCE.
pub fn build_google_auth_url(
    client_id: &str,
    redirect_uri: &str,
    code_challenge: &str,
    scopes: &[&str],
) -> (r: String)
    ensures
        r@ == auth_url(client_id@, redirect_uri@, code_challenge@, slice_texts(scopes@)),
{
    let scope = if scopes.len() == 0 {
        "openid email profile".to_owned()
    } else {
        join_with_spaces(scopes)
    };
    let mut url: String = "https://accounts.google.com/o/oauth2/v2/auth?client_id=".to_owned();
    url.append(url_encode(client_id).as_str());
    url.append("&redirect_uri=");
    url.append(url_encode(redirect_uri).as_str());
    url.append("&response_type=code&scope=");
    url.append(url_encode(scope.as_str()).as_str());
    url.append("&code_challenge=");
    url.append(url_encode(code_challenge).as_str());
    url.append("&code_challenge_method=S256&access_type=offline");
    url
}

/// Whether `c` can stand in a URL parameter without ending it or changing its meaning.
pub open spec fn is_parameter_char(c: char) -> bool {
    is_alphanumeric(c) || c == '-' || c == '_' || c == '.' || c == '~' || c == '%'
}

/// The encoded bytes hold no character that ends a parameter.
proof fn lemma_encoded_bytes(bytes: Seq<u8>, i: int)
    requires
        0 <= i < percent_encoded(bytes).len(),
    ensures
        is_parameter_char(percent_encoded(bytes)[i]),
    decreases bytes.len(),
{
    let rest = percent_encoded(bytes.drop_last());
    if i < rest.len() {
        lemma_encoded_bytes(bytes.drop_last(), i);
    } else {
        let b = bytes.last();
        let high = b / 16;
        let low = b % 16;
        assert(high < 16 && low < 16);
        assert(is_alphanumeric(hex_digit(high)));
        assert(is_alphanumeric(hex_digit(low)));
    }
}

/// A value that is put into a URL cannot end the parameter that it stands in: of its encoding every
/// character is a letter, a digit, `-`, `_`, `.`, `~` or the escape sign.
pub proof fn law_parameters_stay_apart(value: Seq<char>)
    ensures
        forall|i: int|
            0 <= i < url_encoded(value).len() ==> is_parameter_char(
                #[trigger] url_encoded(value)[i],
            ),
{
    assert forall|i: int| 0 <= i < url_encoded(value).len() implies is_parameter_char(
        #[trigger] url_encoded(value)[i],
    ) by {
        lemma_encoded_bytes(encode_utf8(value), i);
    }
}

/// Text of the given characters does not contain `c`, if none of the characters is `c`.
proof fn lemma_encoding_avoids(value: Seq<char>, c: char)
    requires
        !is_parameter_char(c),
    ensures
        !url_encoded(value).contains(c),
{
    law_parameters_stay_apart(value);
    if url_encoded(value).contains(c) {
        let i = url_encoded(value).index_of(c);
        assert(is_parameter_char(url_encoded(value)[i]));
    }
}

/// A name and an encoded value do not contain `c`, if the name does not.
proof fn lemma_parameter_avoids(name: Seq<char>, value: Seq<char>, c: char)
    requires
        !is_parameter_char(c),
        !name.contains(c),
    ensures
        !(name + url_encoded(value)).contains(c),
{
    lemma_encoding_avoids(value, c);
    let text = name + url_encoded(value);
    if text.contains(c) {
        let i = text.index_of(c);
        if i < name.len() {
            assert(name[i] == c);
        } else {
            assert(url_encoded(value)[i - name.len()] == c);
        }
    }
}

/// The authorization URL asks Google for an authorization code under PKCE: its query consists of
/// these parameters, each with the value that was given, whatever characters the value contains.
pub proof fn law_auth_url_holds_its_parameters(
    client_id: Seq<char>,
    redirect_uri: Seq<char>,
    code_challenge: Seq<char>,
    scopes: Seq<Seq<char>>,
)
    ensures
        split(auth_url(client_id, redirect_uri, code_challenge, scopes), '&') == seq![
            "https://accounts.google.com/o/oauth2/v2/auth?client_id="@ + url_encoded(client_id),
            "redirect_uri="@ + url_encoded(redirect_uri),
            "response_type=code"@,
            "scope="@ + url_encoded(
                if scopes.len() == 0 {
                    "openid email profile"@
                } else {
                    joined(scopes, ' ')
                },
            ),
            "code_challenge="@ + url_encoded(code_challenge),
            "code_challenge_method=S256"@,
            "access_type=offline"@,
        ],
{
    let scope = scope_text(scopes);
    let p0 = "https://accounts.google.com/o/oauth2/v2/auth?client_id="@;
    let p1 = "redirect_uri="@;
    let p2 = "response_type=code"@;
    let p3 = "scope="@;
    let p4 = "code_challenge="@;
    let p5 = "code_challenge_method=S256"@;
    let p6 = "access_type=offline"@;
    reveal_strlit("https://accounts.google.com/o/oauth2/v2/auth?client_id=");
    reveal_strlit("redirect_uri=");
    reveal_strlit("&redirect_uri=");
    reveal_strlit("response_type=code");
    reveal_strlit("scope=");
    reveal_strlit("&response_type=code&scope=");
    reveal_strlit("code_challenge=");
    reveal_strlit("&code_challenge=");
    reveal_strlit("code_challenge_method=S256");
    reveal_strlit("access_type=offline");
    reveal_strlit("&code_challenge_method=S256&access_type=offline");
    let and = seq!['&'];
    assert("&redirect_uri="@ =~= and + p1);
    assert("&response_type=code&scope="@ =~= and + p2 + and + p3);
    assert("&code_challenge="@ =~= and + p4);
    assert("&code_challenge_method=S256&access_type=offline"@ =~= and + p5 + and + p6);
    assert(!is_parameter_char('&'));
    lemma_parameter_avoids(p0, client_id, '&');
    lemma_parameter_avoids(p1, redirect_uri, '&');
    lemma_parameter_avoids(p3, scope, '&');
    lemma_parameter_avoids(p4, code_challenge, '&');
    let parts = seq![
        p0 + url_encoded(client_id),
        p1 + url_encoded(redirect_uri),
        p2,
        p3 + url_encoded(scope),
        p4 + url_encoded(code_challenge),
        p5,
        p6,
    ];
    reveal_with_fuel(joined, 8);
    let s6 = parts.drop_last();
    let s5 = s6.drop_last();
    let s4 = s5.drop_last();
    let s3 = s4.drop_last();
    let s2 = s3.drop_last();
    let s1 = s2.drop_last();
    assert(s1.len() == 1 && s1[0] == parts[0]);
    assert(joined(parts, '&') =~= auth_url(client_id, redirect_uri, code_challenge, scopes));
    law_splitting_undoes_joining(parts, '&');
}

/// The scopes that were given are read back from the scope text, as long as none contains a space.
pub proof fn law_scopes_are_read_back(scopes: Seq<Seq<char>>)
    requires
        scopes.len() > 0,
        forall|i: int| 0 <= i < scopes.len() ==> !(#[trigger] scopes[i]).contains(' '),
    ensures
        split(scope_text(scopes), ' ') == scopes,
{
    law_splitting_undoes_joining(scopes, ' ');
}

// ---------------------------------------------------------------------------
// Requests
// ---------------------------------------------------------------------------

/// The reply to the first phase of a registration.
#[derive(Debug, Clone)]
pub struct GoogleRegisterResponse {
    pub status: String,
    pub user_id: String,
    pub state: String,
    pub email: Option<String>,
    pub name: Option<String>,
    pub picture: Option<String>,
}

/// The body of a registration with an ID token.
pub struct GoogleIdTokenRequest {
    pub id_token: String,
    pub i_key: String,
}

/// The body of a registration with a PKCE authorization code.
pub struct OAuthRegisterRequest {
    pub code: String,
    pub code_verifier: Option<String>,
    pub redirect_uri: String,
    pub i_key: String,
}

/// The URL and body of a registration with an ID token (`POST /register/google/id_token`).
pub fn google_id_token_request(base_url: &str, id_token: &str, i_key_pub: &[u8; 33]) -> (r: (
    String,
    GoogleIdTokenRequest,
))
    ensures
        r.0@ == base_url@ + "/register/google/id_token"@,
        r.1.id_token@ == id_token@,
        r.1.i_key@ == b64(i_key_pub@),
{
    let mut url = base_url.to_owned();
    url.append("/register/google/id_token");
    (url, GoogleIdTokenRequest { id_token: id_token.to_owned(), i_key: b64_encode(i_key_pub) })
}

/// The URL and body of a registration with a PKCE code (`POST /register/google/pkce`).
pub fn google_pkce_request(
    base_url: &str,
    code: &str,
    code_verifier: Option<&str>,
    redirect_uri: &str,
    i_key_pub: &[u8; 33],
) -> (r: (String, OAuthRegisterRequest))
    ensures
        r.0@ == base_url@ + "/register/google/pkce"@,
        r.1.code@ == code@,
        match (code_verifier, r.1.code_verifier) {
            (Some(v), Some(w)) => w@ == v@,
            (None, None) => true,
            _ => false,
        },
        r.1.redirect_uri@ == redirect_uri@,
        r.1.i_key@ == b64(i_key_pub@),
{
    let mut url = base_url.to_owned();
    url.append("/register/google/pkce");
    let code_verifier = match code_verifier {
        Some(v) => Some(v.to_owned()),
        None => None,
    };
    let body = OAuthRegisterRequest {
        code: code.to_owned(),
        code_verifier,
        redirect_uri: redirect_uri.to_owned(),
        i_key: b64_encode(i_key_pub),
    };
    (url, body)
}

}
