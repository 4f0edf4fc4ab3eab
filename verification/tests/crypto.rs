use base64::engine::general_purpose::STANDARD;
use base64::Engine;
use deezchatz_sdk::crypto::{
    auth_headers_at, construct_ad, decode_b64_33, decode_b64_96, encode_signature, encrypt_message,
    generate_auth_headers, generate_registration_keys, parse_prekey_bundle, prekey_bundle_from,
    public_key_from, sign_payload, signature_from,
};
use deezchatz_sdk::session::encrypt_message_at;
use deezchatz_sdk::signal::VXEdDSAOutput;
use deezchatz_sdk::transport::ApiClient;
use deezchatz_sdk::SdkError;
use libsignal_dezire::vxeddsa::{gen_keypair, gen_pubkey, vxeddsa_verify};

fn text(e: SdkError) -> String {
    e.to_string()
}

#[test]
fn registration_keys_are_pairs() {
    let keys = generate_registration_keys(3);
    assert_eq!(keys.opks.len(), 3);
    assert_eq!(keys.identity_key.public, gen_pubkey(&keys.identity_key.secret));
    assert_eq!(keys.signed_pre_key.public, gen_pubkey(&keys.signed_pre_key.secret));
    assert_eq!(keys.signed_device_key.public, gen_pubkey(&keys.signed_device_key.secret));
    for k in &keys.opks {
        assert_eq!(k.public, gen_pubkey(&k.secret));
        assert_eq!(k.public[0], 5);
    }
    assert_ne!(keys.identity_key.secret, keys.signed_pre_key.secret);
    assert!(generate_registration_keys(0).opks.is_empty());
}

#[test]
fn signatures_verify() {
    let pair = gen_keypair();
    let (signature, vrf) = sign_payload(&pair.secret, b"payload").unwrap();
    assert_eq!(signature.len(), 128);
    assert_eq!(vrf.len(), 44);
    let signature = decode_b64_96(&signature).unwrap();
    let verified = vxeddsa_verify(&pair.public, b"payload", &signature).unwrap();
    assert_eq!(STANDARD.encode(verified), vrf);
    assert!(vxeddsa_verify(&pair.public, b"other", &signature).is_none());
    // The VRF output depends on key and message alone.
    assert_eq!(sign_payload(&pair.secret, b"payload").unwrap().1, vrf);
}

#[test]
fn signatures_are_written_as_base64() {
    let out = VXEdDSAOutput { signature: [0u8; 96], vrf: [255u8; 32] };
    let (signature, vrf) = encode_signature(&out);
    assert_eq!(signature, "A".repeat(128));
    assert_eq!(vrf, "//////////////////////////////////////////8=");
}

#[test]
fn auth_headers_sign_user_and_time() {
    let pair = gen_keypair();
    let (user, time, signature, vrf) = auth_headers_at("alice", &pair.secret, Ok(1726030464)).unwrap();
    assert_eq!(user, "alice");
    assert_eq!(time, "1726030464");
    let signature = decode_b64_96(&signature).unwrap();
    let verified = vxeddsa_verify(&pair.public, b"alice1726030464", &signature).unwrap();
    assert_eq!(STANDARD.encode(verified), vrf);
    let err = auth_headers_at("alice", &pair.secret, Err("no clock".to_string())).unwrap_err();
    assert_eq!(text(err), "Crypto error: no clock");
    let (_, now, _, _) = generate_auth_headers("alice", &pair.secret).unwrap();
    assert!(now.parse::<u64>().unwrap() > 1_700_000_000);
}

#[test]
fn auth_headers_of_a_request() {
    let api = ApiClient::new("http://h".to_string());
    let headers = api.auth_headers("alice", &[1u8; 32]).unwrap();
    let names: Vec<&str> = headers.iter().map(|h| h.0.as_str()).collect();
    assert_eq!(names, vec!["X-User-Id", "X-Timestamp", "X-Signature", "X-Vrf"]);
    assert_eq!(headers[0].1, "alice");
    let err = api.auth_headers("al\nice", &[1u8; 32]).unwrap_err();
    assert_eq!(text(err), "API error: failed to parse header value");
    assert!(api.auth_headers("a\u{7f}", &[1u8; 32]).is_err());
    assert!(api.auth_headers("a\tb c~", &[1u8; 32]).is_ok());
    assert_eq!(api.auth_headers("élan", &[1u8; 32]).unwrap()[0].1, "élan");
    let err = api.auth_headers_at("a", &[1u8; 32], Err("no clock".to_string())).unwrap_err();
    assert_eq!(text(err), "Crypto error: no clock");
}

#[test]
fn requests_for_bundles() {
    let api = ApiClient::new("http://h".to_string());
    let request = api.bundle_request("alice", &[1u8; 32], "bob@example.com").ok().unwrap();
    assert_eq!(request.url, "http://h/bundle/bob%40example.com");
    assert_eq!(request.headers.len(), 4);
    let request = api.sync_bundle_request("alice", &[1u8; 32], "a b").ok().unwrap();
    assert_eq!(request.url, "http://h/bundle/sync/a%20b");
    assert!(api.bundle_request_at("alice", &[1u8; 32], "b", Err("x".to_string())).is_err());
}

#[test]
fn device_registration_request() {
    let api = ApiClient::new("http://h".to_string());
    let keys = generate_registration_keys(2);
    let opks = keys.opk_public_keys();
    let (url, body) = api
        .device_registration(
            "state",
            "+123",
            &keys.identity_key.secret,
            &keys.signed_pre_key.public,
            &keys.signed_device_key.public,
            &opks,
        )
        .ok()
        .unwrap();
    assert_eq!(url, "http://h/register/device");
    assert_eq!(body.state, "state");
    assert_eq!(body.phone, "+123");
    assert_eq!(decode_b64_33(&body.signed_pre_key).unwrap(), keys.signed_pre_key.public);
    assert_eq!(decode_b64_33(&body.signed_device_key).unwrap(), keys.signed_device_key.public);
    assert_eq!(body.opks, vec![STANDARD.encode(opks[0]), STANDARD.encode(opks[1])]);
    let check = |message: &[u8], signature: &str, vrf: &str| {
        let signature = decode_b64_96(signature).unwrap();
        let out = vxeddsa_verify(&keys.identity_key.public, message, &signature).unwrap();
        assert_eq!(STANDARD.encode(out), vrf);
    };
    check(b"state", &body.state_signature, &body.state_vrf);
    check(&keys.signed_pre_key.public, &body.pre_key_sign, &body.pre_key_vrf);
    check(&keys.signed_device_key.public, &body.dev_key_sign, &body.dev_key_vrf);
}

#[test]
fn stored_one_time_keys_match_the_uploaded_ones() {
    let keys = generate_registration_keys(4);
    let publics = keys.opk_public_keys();
    for (i, (id, secret, public)) in keys.opk_entries().into_iter().enumerate() {
        assert_eq!(id as usize, i);
        assert_eq!(secret, keys.opks[i].secret);
        assert_eq!(public, publics[i]);
    }
}

#[test]
fn decoding_of_keys() {
    let mut key = [9u8; 33];
    key[0] = 5;
    assert_eq!(decode_b64_33(&STANDARD.encode(key)).unwrap(), key);
    assert_eq!(
        text(decode_b64_33(&STANDARD.encode([5u8; 32])).unwrap_err()),
        "Crypto error: Invalid key length: 32"
    );
    assert_eq!(
        text(decode_b64_33(&STANDARD.encode([4u8; 33])).unwrap_err()),
        "Crypto error: Invalid public key prefix, expected 0x05"
    );
    let broken = text(decode_b64_33("!").unwrap_err());
    assert!(broken.starts_with("Crypto error: Base64 decode error: "));
    assert_eq!(
        text(public_key_from(Err("odd".to_string())).unwrap_err()),
        "Crypto error: Base64 decode error: odd"
    );
    assert_eq!(text(public_key_from(Ok(vec![])).unwrap_err()), "Crypto error: Invalid key length: 0");
}

#[test]
fn only_canonical_base64_is_decoded() {
    let complaint = |s: &str| text(decode_b64_33(s).unwrap_err());
    assert_eq!(complaint("QQ=="), "Crypto error: Invalid key length: 1");
    assert_eq!(complaint("QUI="), "Crypto error: Invalid key length: 2");
    assert_eq!(complaint("QUJD"), "Crypto error: Invalid key length: 3");
    assert_eq!(complaint("QUJDRA=="), "Crypto error: Invalid key length: 4");
    assert_eq!(complaint(""), "Crypto error: Invalid key length: 0");
    // Unused bits, missing or superfluous padding, the other alphabet, foreign characters.
    for bad in ["QR==", "QUJ=", "QQ", "QQ=", "QUJD=", "QUJD====", "-_-_", "QU JD", "QQ==QQ=="] {
        assert!(complaint(bad).starts_with("Crypto error: Base64 decode error: "), "{}", bad);
    }
    for n in 0..70usize {
        let bytes: Vec<u8> = (0..n).map(|i| (i * 37 + n) as u8).collect();
        let expected = match n {
            33 => "Crypto error: Invalid public key prefix, expected 0x05".to_string(),
            _ => format!("Crypto error: Invalid key length: {}", n),
        };
        assert_eq!(complaint(&STANDARD.encode(&bytes)), expected);
    }
}

#[test]
fn decoding_of_signatures() {
    assert_eq!(decode_b64_96(&STANDARD.encode([7u8; 96])).unwrap(), [7u8; 96]);
    assert_eq!(
        text(decode_b64_96(&STANDARD.encode([7u8; 95])).unwrap_err()),
        "Crypto error: Invalid sig length: 95"
    );
    assert_eq!(
        text(signature_from(Err("odd".to_string())).unwrap_err()),
        "Crypto error: Base64 decode error: odd"
    );
}

#[test]
fn parsing_of_bundles() {
    let ik = STANDARD.encode([5u8; 33]);
    let mut spk = [6u8; 33];
    spk[0] = 5;
    let spk_text = STANDARD.encode(spk);
    let sig = STANDARD.encode([1u8; 96]);
    let bundle = parse_prekey_bundle(&ik, &spk_text, &sig, Some((42, &spk_text))).ok().unwrap();
    assert_eq!(bundle.identity_key, [5u8; 33]);
    assert_eq!(bundle.signed_prekey.id, 1);
    assert_eq!(bundle.signed_prekey.public_key, spk);
    assert_eq!(bundle.signed_prekey.signature, [1u8; 96]);
    let opk = bundle.one_time_prekey.unwrap();
    assert_eq!(opk.id, 42);
    assert_eq!(opk.public_key, spk);
    assert!(parse_prekey_bundle(&ik, &spk_text, &sig, None).ok().unwrap().one_time_prekey.is_none());

    let err = |r: Result<_, SdkError>| -> String {
        match r {
            Ok(_) => panic!("expected an error"),
            Err(e) => text(e),
        }
    };
    let short = STANDARD.encode([5u8; 3]);
    let from = |a, b, c, d| prekey_bundle_from(a, b, c, d).map(|_| ());
    assert_eq!(
        err(parse_prekey_bundle(&short, "!", "!", None).map(|_| ())),
        "Crypto error: Invalid key length: 3"
    );
    let good = || Ok(vec![5u8; 33]);
    assert_eq!(err(from(good(), Ok(vec![]), Ok(vec![]), None)), "Crypto error: Invalid key length: 0");
    assert_eq!(err(from(good(), good(), Ok(vec![]), None)), "Crypto error: Invalid sig length: 0");
    assert_eq!(
        err(from(good(), good(), Ok(vec![0u8; 96]), Some((1, Ok(vec![0u8; 33]))))),
        "Crypto error: Invalid public key prefix, expected 0x05"
    );
}

#[test]
fn associated_data() {
    assert_eq!(construct_ad(&[1, 2], &[3]), vec![1, 2, 3]);
    assert_eq!(construct_ad(&[], &[]), Vec::<u8>::new());
}

#[test]
fn encryption_needs_a_session_or_a_bundle() {
    let pair = gen_keypair();
    let id = (pair.secret, pair.public);
    match encrypt_message(b"hi", &id, None, None) {
        Err(e) => assert_eq!(
            text(e),
            "Crypto error: No existing session and no prekey bundle provided"
        ),
        Ok(_) => panic!("expected an error"),
    }
}

#[test]
fn bundles_with_bad_keys_or_signatures() {
    let bob = generate_registration_keys(0);
    let alice = gen_keypair();
    let id = (alice.secret, alice.public);
    let ik = STANDARD.encode(bob.identity_key.public);
    let spk = STANDARD.encode(bob.signed_pre_key.public);
    let contact = |ik: &str, spk: &str, sig: [u8; 96]| {
        let bundle = parse_prekey_bundle(ik, spk, &STANDARD.encode(sig), None).ok().unwrap();
        Some(("bob".to_string(), "b1".to_string(), bundle))
    };
    let fails = |c| match encrypt_message(b"hi", &id, None, c) {
        Err(e) => text(e),
        Ok(_) => panic!("expected an error"),
    };
    assert_eq!(fails(contact(&ik, &spk, [0u8; 96])), "X3DH error: InvalidSignature");
    // The point with u-coordinate 0 has small order.
    let mut zero = [0u8; 33];
    zero[0] = 5;
    let low = contact(&ik, &STANDARD.encode(zero), [0u8; 96]);
    assert!(low.as_ref().unwrap().2.is_readable());
    assert_eq!(fails(low), "X3DH error: InvalidKey");
    // No key after a refused one is looked at.
    let mut twist = [0u8; 33];
    twist[0] = 5;
    twist[1] = 2;
    let twist = STANDARD.encode(twist);
    assert!(!contact(&twist, &spk, [0u8; 96]).unwrap().2.is_readable());
    assert!(!contact(&ik, &twist, [0u8; 96]).unwrap().2.is_readable());
    assert_eq!(fails(contact(&STANDARD.encode(zero), &twist, [0u8; 96])), "X3DH error: InvalidKey");
}

#[test]
fn encryption_without_a_clock() {
    let bob = generate_registration_keys(0);
    let (sig, _) = sign_payload(&bob.identity_key.secret, &bob.signed_pre_key.public).unwrap();
    let bundle = parse_prekey_bundle(
        &STANDARD.encode(bob.identity_key.public),
        &STANDARD.encode(bob.signed_pre_key.public),
        &sig,
        None,
    )
    .ok()
    .unwrap();
    let alice = gen_keypair();
    let id = (alice.secret, alice.public);
    let contact = Some(("bob".to_string(), "b1".to_string(), bundle));
    match encrypt_message_at(b"hi", &id, None, contact, Err("no clock".to_string())) {
        Err(e) => assert_eq!(text(e), "Crypto error: no clock"),
        Ok(_) => panic!("expected an error"),
    }
}
