use base64::engine::general_purpose::{STANDARD, URL_SAFE_NO_PAD};
use base64::Engine;
use deezchatz_sdk::oauth::{
    build_google_auth_url, code_verifier_from, generate_code_challenge, generate_code_verifier,
    google_id_token_request, google_pkce_request,
};

#[test]
fn verifier_is_random_and_url_safe() {
    let a = generate_code_verifier();
    let b = generate_code_verifier();
    assert_eq!(a.len(), 43);
    assert_ne!(a, b);
    assert!(a.chars().all(|c| c.is_ascii_alphanumeric() || c == '-' || c == '_'));
    assert_eq!(URL_SAFE_NO_PAD.decode(&a).unwrap().len(), 32);
    assert_eq!(code_verifier_from(&[0xffu8; 32]), "__________________________________________8");
}

#[test]
fn challenge_of_the_rfc_example() {
    assert_eq!(
        generate_code_challenge("dBjftJeZ4CVP-mB92K27uhbUJU1p1r_wW1gFWFOEjXk"),
        "E9Melhoa2OwvFrEMTJguCHaoeK1t8URWbuGJSstw-cM"
    );
}

#[test]
fn authorization_url() {
    assert_eq!(
        build_google_auth_url("id 1", "http://localhost:8080/cb?x=1&y", "ch-_", &["openid", "email"]),
        "https://accounts.google.com/o/oauth2/v2/auth?client_id=id%201\
         &redirect_uri=http%3A%2F%2Flocalhost%3A8080%2Fcb%3Fx%3D1%26y&response_type=code\
         &scope=openid%20email&code_challenge=ch-_&code_challenge_method=S256&access_type=offline"
    );
    let default = build_google_auth_url("a", "b", "c", &[]);
    assert!(default.contains("&scope=openid%20email%20profile&"));
    let one = build_google_auth_url("a", "b", "c", &["~é"]);
    assert!(one.contains("&scope=~%C3%A9&"));
}

#[test]
fn registration_requests() {
    let (url, body) = google_id_token_request("http://h", "token", &[5u8; 33]);
    assert_eq!(url, "http://h/register/google/id_token");
    assert_eq!(body.id_token, "token");
    assert_eq!(STANDARD.decode(&body.i_key).unwrap(), vec![5u8; 33]);

    let (url, body) = google_pkce_request("http://h", "code", Some("v"), "cb", &[5u8; 33]);
    assert_eq!(url, "http://h/register/google/pkce");
    assert_eq!(body.code, "code");
    assert_eq!(body.code_verifier, Some("v".to_string()));
    assert_eq!(body.redirect_uri, "cb");
    assert_eq!(STANDARD.decode(&body.i_key).unwrap(), vec![5u8; 33]);
    assert!(google_pkce_request("http://h", "code", None, "cb", &[5u8; 33]).1.code_verifier.is_none());
}
