use base64::engine::general_purpose::STANDARD;
use base64::Engine;
use deezchatz_sdk::crypto::{
    generate_registration_keys, parse_prekey_bundle, sign_payload, RegistrationKeys,
};
use deezchatz_sdk::oauth::GoogleRegisterResponse;
use deezchatz_sdk::receive::{begin_decrypt, DecryptStep};
use deezchatz_sdk::registration::{begin_registration, RegisterStep};
use deezchatz_sdk::sending::{
    begin_send, frame_image, frame_image_at, frame_image_with, Publication, SendStep,
};
use deezchatz_sdk::session::{
    check_count, construct_ad, encrypt_message_at, ActiveSession, EncryptedPayload,
};
use deezchatz_sdk::transport::{ApiClient, BundleResponse, DeviceRegisterResponse, OpkResponse};
use deezchatz_sdk::{decode_payload, DecodedPayload, SdkError};
use libsignal_dezire::ratchet;

type Pair = ([u8; 32], [u8; 33]);

fn pair(k: &deezchatz_sdk::signal::KeyPair) -> Pair {
    (k.secret, k.public)
}

fn bundle_of(user: &str, keys: &RegistrationKeys, opk: bool) -> BundleResponse {
    let (signature, _) =
        sign_payload(&keys.identity_key.secret, &keys.signed_pre_key.public).unwrap();
    BundleResponse {
        user_id: user.to_string(),
        device_id: "device".to_string(),
        identity_key: STANDARD.encode(keys.identity_key.public),
        signed_pre_key: STANDARD.encode(keys.signed_pre_key.public),
        signature,
        opk: if opk {
            Some(OpkResponse { id: 0, key: STANDARD.encode(keys.opks[0].public) })
        } else {
            None
        },
        phone: None,
        picture: None,
    }
}

fn failure(step: SendStep) -> String {
    match step {
        SendStep::Failed(e) => e.to_string(),
        _ => panic!("expected a failure"),
    }
}

fn decrypt_failure(step: DecryptStep) -> String {
    match step {
        DecryptStep::Failed(e) => e.to_string(),
        _ => panic!("expected a failure"),
    }
}

/// Sends a first message and returns the envelope, the session and what there is to publish.
fn send_first(
    sender: &RegistrationKeys,
    to: &str,
    reply: BundleResponse,
    payload: &[u8],
) -> (EncryptedPayload, ActiveSession) {
    let step = begin_send(Some("alice"), Some("a1"), to, payload);
    let SendStep::IdentityKey(s) = step else { panic!("identity key") };
    let SendStep::Session(s) = s.resume(Ok(Some(pair(&sender.identity_key)))) else {
        panic!("session")
    };
    let SendStep::SignedPreKey(s) = s.resume(Ok(None)) else { panic!("signed pre-key") };
    assert_eq!(s.key_id, 1);
    let SendStep::Bundle(s) = s.resume(Ok(Some(pair(&sender.signed_pre_key)))) else {
        panic!("bundle")
    };
    assert_eq!(s.signing_key, sender.signed_pre_key.secret);
    let request = s.request(&ApiClient::new("http://h".to_string())).ok().unwrap();
    assert_eq!(request.url, format!("http://h/bundle/{}", to));
    assert!(request.headers.iter().any(|h| h.1 == "alice"));
    let SendStep::Seal(s) = s.resume(Ok(reply)) else { panic!("seal") };
    assert!(s.is_readable());
    let SendStep::SaveSession(s) = s.seal() else { panic!("save session") };
    (s.parcel.envelope, s.parcel.session)
}

/// Decrypts a first message with the recipient's keys.
fn receive_first(
    recipient: &RegistrationKeys,
    envelope: EncryptedPayload,
    with_opk: bool,
) -> (Vec<u8>, ActiveSession) {
    let DecryptStep::IdentityKey(s) = begin_decrypt(Ok(envelope), "alice", "a1") else {
        panic!("identity key")
    };
    assert_eq!(s.invitation.spk_id, 1);
    let DecryptStep::SignedPreKey(s) = s.resume(Ok(Some(pair(&recipient.identity_key)))) else {
        panic!("signed pre-key")
    };
    let next = s.resume(Ok(Some(pair(&recipient.signed_pre_key))));
    let agreement = if with_opk {
        let DecryptStep::OneTimePreKey(s) = next else { panic!("one-time pre-key") };
        assert_eq!(s.opk_id, 0);
        let DecryptStep::Agree(a) = s.resume(Ok(Some(pair(&recipient.opks[0])))) else {
            panic!("agree")
        };
        a
    } else {
        let DecryptStep::Agree(a) = next else { panic!("agree") };
        a
    };
    assert!(agreement.is_readable());
    let DecryptStep::LocalIdentity(s) = agreement.agree() else { panic!("local identity") };
    let DecryptStep::Save(s) = s.resume(Ok(Some(pair(&recipient.identity_key)))) else {
        panic!("save")
    };
    assert_eq!(s.sender_id, "alice");
    (s.plaintext, s.session)
}

fn receive_next(
    session: ActiveSession,
    recipient: &RegistrationKeys,
    envelope: EncryptedPayload,
) -> (Vec<u8>, ActiveSession) {
    let DecryptStep::Session(s) = begin_decrypt(Ok(envelope), "alice", "a1") else { panic!("session") };
    let DecryptStep::LocalIdentity(s) = s.resume(Ok(Some(Ok(session)))) else {
        panic!("local identity")
    };
    let DecryptStep::Save(s) = s.resume(Ok(Some(pair(&recipient.identity_key)))) else {
        panic!("save")
    };
    (s.plaintext, s.session)
}

fn encrypt(
    session: ActiveSession,
    sender: &RegistrationKeys,
    payload: &[u8],
) -> (EncryptedPayload, ActiveSession) {
    encrypt_message_at(payload, &pair(&sender.identity_key), Some(session), None, Ok(1))
        .ok()
        .unwrap()
}

#[test]
fn first_message_is_read_back() {
    let alice = generate_registration_keys(0);
    let bob = generate_registration_keys(1);
    for with_opk in [false, true] {
        let (envelope, session) =
            send_first(&alice, "bob", bundle_of("bob", &bob, with_opk), b"hello");
        assert_eq!(envelope.spk_id, Some(1));
        assert_eq!(envelope.opk_id, if with_opk { Some(0) } else { None });
        assert_eq!(envelope.identity_key, Some(STANDARD.encode(alice.identity_key.public)));
        assert!(envelope.timestamp > 1_700_000_000_000);
        assert_eq!(session.remote_user_id, "bob");
        assert_eq!(session.remote_device_id, "device");
        assert_eq!(session.remote_identity_pub, bob.identity_key.public.to_vec());
        let (plaintext, session) = receive_first(&bob, envelope, with_opk);
        assert_eq!(plaintext, b"hello");
        assert_eq!(session.remote_user_id, "alice");
        assert_eq!(session.remote_device_id, "a1");
        assert_eq!(session.remote_identity_pub, alice.identity_key.public.to_vec());
    }
}

#[test]
fn conversation_goes_on() {
    let alice = generate_registration_keys(0);
    let bob = generate_registration_keys(1);
    let (envelope, mut at_alice) = send_first(&alice, "bob", bundle_of("bob", &bob, true), b"0");
    let (plaintext, mut at_bob) = receive_first(&bob, envelope, true);
    assert_eq!(plaintext, b"0");
    for i in 1u8..5 {
        let (envelope, session) = encrypt(at_alice, &alice, &[i]);
        at_alice = session;
        assert_eq!(envelope.timestamp, 1);
        assert!(envelope.identity_key.is_none() && envelope.ephemeral_key.is_none());
        assert!(envelope.spk_id.is_none() && envelope.opk_id.is_none());
        let (plaintext, session) = receive_next(at_bob, &bob, envelope);
        at_bob = session;
        assert_eq!(plaintext, vec![i]);
    }
    let (_, mut at_alice) = encrypt(at_alice, &alice, b"on its way");
    for i in 0u8..4 {
        let (reply, session) = encrypt(at_bob, &bob, &[b'r', i]);
        at_bob = session;
        let (plaintext, session) = receive_next(at_alice, &alice, reply);
        at_alice = session;
        assert_eq!(plaintext, vec![b'r', i]);
    }
    let (envelope, _) = encrypt(at_alice, &alice, b"again");
    let (plaintext, _) = receive_next(at_bob, &bob, envelope);
    assert_eq!(plaintext, b"again");
}

#[test]
fn tampered_messages_are_refused() {
    let alice = generate_registration_keys(0);
    let bob = generate_registration_keys(0);
    let (mut envelope, _) = send_first(&alice, "bob", bundle_of("bob", &bob, false), b"hello");
    let mut bytes = STANDARD.decode(&envelope.ciphertext).unwrap();
    bytes[0] ^= 1;
    envelope.ciphertext = STANDARD.encode(bytes);
    let DecryptStep::IdentityKey(s) = begin_decrypt(Ok(envelope), "alice", "a1") else { panic!() };
    let DecryptStep::SignedPreKey(s) = s.resume(Ok(Some(pair(&bob.identity_key)))) else { panic!() };
    let DecryptStep::Agree(a) = s.resume(Ok(Some(pair(&bob.signed_pre_key)))) else { panic!() };
    let DecryptStep::LocalIdentity(s) = a.agree() else { panic!() };
    assert_eq!(
        decrypt_failure(s.resume(Ok(Some(pair(&bob.identity_key))))),
        "Crypto error: Ratchet decrypt failed: DecryptionFailed"
    );
}

#[test]
fn message_after_an_alias_save() {
    let alice = generate_registration_keys(0);
    let bob = generate_registration_keys(0);
    let step = begin_send(Some("alice"), Some("a1"), "bob@example.com", b"x");
    let SendStep::IdentityKey(s) = step else { panic!() };
    let SendStep::Session(s) = s.resume(Ok(Some(pair(&alice.identity_key)))) else { panic!() };
    let SendStep::SignedPreKey(s) = s.resume(Ok(None)) else { panic!() };
    let SendStep::Bundle(s) = s.resume(Ok(Some(pair(&alice.signed_pre_key)))) else { panic!() };
    let SendStep::Seal(s) = s.resume(Ok(bundle_of("bob-id", &bob, false))) else { panic!() };
    let SendStep::SaveSession(s) = s.seal() else { panic!() };
    assert_eq!(s.parcel.recipient, "bob@example.com");
    let SendStep::SaveAlias(s) = s.resume(Ok(())) else { panic!() };
    assert_eq!(s.parcel.session.remote_user_id, "bob-id");
    let SendStep::Enqueue(s) = s.resume() else { panic!() };
    assert_eq!(s.recipient_id, "bob-id");
    assert_eq!(s.topic, "/deezchatz/bob-id/device/alice/a1");
    assert_eq!(s.message_id.len(), 36);
    assert_eq!(&s.message_id[14..15], "4");
    let id = s.message_id.clone();
    let SendStep::Publish(p) = s.resume(Ok(9)) else { panic!() };
    assert_eq!(p.outbox_id, 9);
    assert_eq!(p.topic, "/deezchatz/bob-id/device/alice/a1");
    let sent = p.resume(Ok(())).unwrap();
    assert_eq!(sent.message_id, id);
    assert_eq!(sent.recipient_user_id, "bob-id");
}

#[test]
fn messages_count_as_sent_when_published() {
    let publication = || Publication {
        outbox_id: 1,
        topic: "t".to_string(),
        message_id: "m".to_string(),
        recipient_id: "r".to_string(),
    };
    assert_eq!(publication().resume(Ok(())).unwrap().message_id, "m");
    let closed = publication().resume(Err(SdkError::Mqtt("closed".to_string())));
    assert_eq!(closed.unwrap_err().to_string(), "MQTT error: closed");
    let offline = publication().resume(Err(Publication::not_connected()));
    assert_eq!(
        offline.unwrap_err().to_string(),
        "Invalid operation: MQTT not connected (call connect first)"
    );
}

#[test]
fn replies_go_to_the_device_that_wrote() {
    let alice = generate_registration_keys(0);
    let bob = generate_registration_keys(0);
    let (envelope, _) = send_first(&alice, "bob", bundle_of("bob", &bob, false), b"hi");
    let (_, session) = receive_first(&bob, envelope, false);
    let step = begin_send(Some("bob"), Some("device"), "alice", b"reply");
    let SendStep::IdentityKey(s) = step else { panic!() };
    let SendStep::Session(s) = s.resume(Ok(Some(pair(&bob.identity_key)))) else { panic!() };
    let SendStep::Seal(s) = s.resume(Ok(Some(Ok(session)))) else { panic!() };
    let SendStep::SaveSession(s) = s.seal() else { panic!() };
    let SendStep::Enqueue(s) = s.resume(Ok(())) else { panic!() };
    assert_eq!(s.topic, "/deezchatz/alice/a1/bob/device");
}

#[test]
fn messages_may_overtake_each_other() {
    let alice = generate_registration_keys(0);
    let bob = generate_registration_keys(0);
    let (envelope, mut at_alice) = send_first(&alice, "bob", bundle_of("bob", &bob, false), b"0");
    let (_, mut at_bob) = receive_first(&bob, envelope, false);
    let mut envelopes = vec![];
    for i in 0u8..5 {
        let (envelope, session) = encrypt(at_alice, &alice, &[i]);
        at_alice = session;
        envelopes.push(Some(envelope));
    }
    let mut replies = vec![];
    for i in [3usize, 1, 4, 0, 2] {
        let (plaintext, session) = receive_next(at_bob, &bob, envelopes[i].take().unwrap());
        assert_eq!(plaintext, vec![i as u8]);
        let (reply, session) = encrypt(session, &bob, &[b'r', i as u8]);
        at_bob = session;
        replies.push(Some((reply, i as u8)));
    }
    for j in [2usize, 0, 4, 3, 1] {
        let (reply, i) = replies[j].take().unwrap();
        let (plaintext, session) = receive_next(at_alice, &alice, reply);
        at_alice = session;
        assert_eq!(plaintext, vec![b'r', i]);
    }
    let (envelope, _) = encrypt(at_alice, &alice, b"again");
    assert_eq!(receive_next(at_bob, &bob, envelope).0, b"again");
}

/// A sent message, as header and ciphertext.
type Packet = (Vec<u8>, Vec<u8>);

/// A sender and a recipient that has decrypted the first message, and the messages with the numbers
/// up to `last` that follow. The one with the number n is at n - 1 and says n in four bytes.
fn with_messages(last: u32) -> (RegistrationKeys, ActiveSession, Vec<u8>, Vec<Packet>) {
    let alice = generate_registration_keys(0);
    let bob = generate_registration_keys(0);
    let (envelope, mut at_alice) = send_first(&alice, "bob", bundle_of("bob", &bob, false), b"0");
    let (_, at_bob) = receive_first(&bob, envelope, false);
    let ad = construct_ad(&alice.identity_key.public, &bob.identity_key.public);
    let packets = (1..=last)
        .map(|n| ratchet::encrypt(&mut at_alice.ratchet_state, &n.to_be_bytes(), &ad).unwrap())
        .collect();
    (bob, at_bob, ad, packets)
}

fn open(
    session: &mut ActiveSession,
    keys: &RegistrationKeys,
    packets: &[Packet],
    n: u32,
) -> Result<Vec<u8>, SdkError> {
    let (header, ciphertext) = packets[n as usize - 1].clone();
    session.open(&keys.identity_key.public, Ok(header), Ok(ciphertext))
}

#[test]
fn messages_lie_within_reach_of_the_counter() {
    let (bob, mut at_bob, _, packets) = with_messages(1003);
    let read = |n: u32| n.to_be_bytes().to_vec();
    // Two messages are decrypted, so that the counter is 2, whatever their numbers are.
    assert_eq!(open(&mut at_bob, &bob, &packets, 2).unwrap(), read(2));
    let failed = open(&mut at_bob, &bob, &packets, 1003).unwrap_err();
    assert_eq!(
        failed.to_string(),
        "Crypto error: Ratchet decrypt failed: OldMessageKeysLimitReached"
    );
    assert_eq!(open(&mut at_bob, &bob, &packets, 1002).unwrap(), read(1002));
    // The counter is 3 now. Stored keys leave it alone.
    assert_eq!(open(&mut at_bob, &bob, &packets, 1).unwrap(), read(1));
    assert_eq!(open(&mut at_bob, &bob, &packets, 500).unwrap(), read(500));
    assert_eq!(open(&mut at_bob, &bob, &packets, 1003).unwrap(), read(1003));
}

#[test]
fn keys_are_stored_up_to_a_limit() {
    let (bob, mut at_bob, ad, packets) = with_messages(2002);
    // Every message is tried with all stored keys. None of these needs one, so the keys are put
    // aside from time to time, which saves that.
    let mut stored = vec![];
    for block in packets[1..2001].chunks(100) {
        for (header, ciphertext) in block {
            ratchet::decrypt(&mut at_bob.ratchet_state, header, ciphertext, &ad).unwrap();
        }
        let mut json = serde_json::to_value(&at_bob.ratchet_state).unwrap();
        stored.append(json["mkskipped"].as_array_mut().unwrap());
        at_bob.ratchet_state = serde_json::from_value(json).unwrap();
    }
    // The keys of the messages 1 to 2000 are stored. One more, and the older half is dropped.
    assert_eq!(stored.len(), 2000);
    let mut json = serde_json::to_value(&at_bob.ratchet_state).unwrap();
    json["mkskipped"] = serde_json::Value::from(stored);
    at_bob.ratchet_state = serde_json::from_value(json.clone()).unwrap();
    assert_eq!(open(&mut at_bob, &bob, &packets, 1).unwrap(), 1u32.to_be_bytes());
    at_bob.ratchet_state = serde_json::from_value(json).unwrap();
    assert_eq!(open(&mut at_bob, &bob, &packets, 2002).unwrap(), 2002u32.to_be_bytes());
    assert!(open(&mut at_bob, &bob, &packets, 1).is_err());
}

/// A session whose receiving counter is set to a number.
fn with_count(session: ActiveSession, count: u32) -> ActiveSession {
    let mut json = serde_json::to_value(&session.ratchet_state).unwrap();
    json["nr"] = serde_json::Value::from(count);
    ActiveSession { ratchet_state: serde_json::from_value(json).unwrap(), ..session }
}

#[test]
fn exhausted_counters_are_noticed() {
    let alice = generate_registration_keys(0);
    let bob = generate_registration_keys(0);
    let (envelope, at_alice) = send_first(&alice, "bob", bundle_of("bob", &bob, false), b"0");
    let (_, at_bob) = receive_first(&bob, envelope, false);
    let (next, _) = encrypt(at_alice, &alice, b"1");
    let header = || STANDARD.decode(&next.header).map_err(|e| e.to_string());
    let ciphertext = || STANDARD.decode(&next.ciphertext).map_err(|e| e.to_string());
    let mut session = with_count(at_bob, u32::MAX - 999);
    let failed = session.open(&bob.identity_key.public, header(), ciphertext()).unwrap_err();
    assert_eq!(failed.to_string(), "Crypto error: Ratchet decrypt failed: CounterOverflow");
    // The counter is the only obstacle.
    let mut session = with_count(session, 1);
    let plaintext = session.open(&bob.identity_key.public, header(), ciphertext()).unwrap();
    assert_eq!(plaintext, b"1");
    // Below the limit the ratchet itself decides.
    let mut session = with_count(session, u32::MAX - 1000);
    let failed = session.open(&bob.identity_key.public, header(), ciphertext()).unwrap_err();
    assert_eq!(failed.to_string(), "Crypto error: Ratchet decrypt failed: DuplicateMessage");

    assert!(check_count(Ok(0)).is_none());
    assert!(check_count(Ok(u32::MAX - 1000)).is_none());
    assert!(check_count(Ok(u32::MAX - 999)).is_some());
    assert_eq!(
        check_count(Err("x".to_string())).unwrap().to_string(),
        "Storage error: Session serialize error: x"
    );
}

#[test]
fn message_in_an_existing_session() {
    let alice = generate_registration_keys(0);
    let bob = generate_registration_keys(0);
    let (_, session) = send_first(&alice, "bob", bundle_of("bob", &bob, false), b"1");
    let step = begin_send(Some("alice"), Some("a1"), "bob", b"2");
    let SendStep::IdentityKey(s) = step else { panic!() };
    let SendStep::Session(s) = s.resume(Ok(Some(pair(&alice.identity_key)))) else { panic!() };
    let SendStep::Seal(s) = s.resume(Ok(Some(Ok(session)))) else { panic!() };
    assert!(s.is_readable());
    let SendStep::SaveSession(s) = s.seal() else { panic!() };
    assert!(s.parcel.envelope.identity_key.is_none());
    let SendStep::Enqueue(s) = s.resume(Ok(())) else { panic!() };
    assert_eq!(failure(s.resume(Err(SdkError::Storage("full".to_string())))), "Storage error: full");
}

#[test]
fn failures_while_sending() {
    let alice = generate_registration_keys(0);
    let down = || SdkError::Storage("down".to_string());
    let start = || match begin_send(Some("alice"), Some("a1"), "bob", b"x") {
        SendStep::IdentityKey(s) => s,
        _ => panic!(),
    };
    assert_eq!(failure(start().resume(Err(down()))), "Storage error: down");
    assert_eq!(
        failure(start().resume(Ok(None))),
        "Storage error: Identity key missing from keystore"
    );
    let session = || match start().resume(Ok(Some(pair(&alice.identity_key)))) {
        SendStep::Session(s) => s,
        _ => panic!(),
    };
    assert_eq!(failure(session().resume(Err(down()))), "Storage error: down");
    assert_eq!(
        failure(session().resume(Ok(Some(Err("bad json".to_string()))))),
        "Storage error: Session deserialize error: bad json"
    );
    let auth = || match session().resume(Ok(None)) {
        SendStep::SignedPreKey(s) => s,
        _ => panic!(),
    };
    assert_eq!(failure(auth().resume(Err(down()))), "Storage error: down");
    assert_eq!(failure(auth().resume(Ok(None))), "Storage error: Missing SPK for auth");
    let bundle = || match auth().resume(Ok(Some(pair(&alice.signed_pre_key)))) {
        SendStep::Bundle(s) => s,
        _ => panic!(),
    };
    assert_eq!(
        failure(bundle().resume(Err(SdkError::Api("no".to_string())))),
        "API error: no"
    );
    let mut reply = bundle_of("bob", &alice, false);
    reply.signature = STANDARD.encode([0u8; 5]);
    assert_eq!(failure(bundle().resume(Ok(reply))), "Crypto error: Invalid sig length: 5");
    let mut reply = bundle_of("bob", &alice, false);
    reply.signature = STANDARD.encode([0u8; 96]);
    let SendStep::Seal(s) = bundle().resume(Ok(reply)) else { panic!() };
    assert_eq!(failure(s.seal()), "X3DH error: InvalidSignature");
    let SendStep::Seal(s) = bundle().resume(Ok(bundle_of("bob", &alice, false))) else { panic!() };
    let SendStep::SaveSession(s) = s.seal() else { panic!() };
    assert_eq!(failure(s.resume(Err(down()))), "Storage error: down");
}

#[test]
fn failures_while_receiving() {
    let bob = generate_registration_keys(0);
    let down = || SdkError::Storage("down".to_string());
    assert_eq!(
        decrypt_failure(begin_decrypt(Err("bad".to_string()), "alice", "a1")),
        "Crypto error: Invalid payload json: bad"
    );
    let envelope = |ik: Option<&str>, ek: Option<&str>, opk_id| EncryptedPayload {
        ciphertext: "!".to_string(),
        header: "AAAA".to_string(),
        timestamp: 0,
        identity_key: ik.map(|s| s.to_string()),
        ephemeral_key: ek.map(|s| s.to_string()),
        spk_id: Some(7),
        opk_id,
    };
    let good = STANDARD.encode(bob.identity_key.public);
    let short = STANDARD.encode([5u8; 2]);
    let begin = |ik, ek, opk| begin_decrypt(Ok(envelope(ik, ek, opk)), "alice", "a1");
    assert_eq!(
        decrypt_failure(begin(Some(&short), Some("!"), None)),
        "Crypto error: Invalid key length: 2"
    );
    assert_eq!(
        decrypt_failure(begin(Some(&good), Some(&short), None)),
        "Crypto error: Invalid key length: 2"
    );
    // One key alone does not make a first message.
    assert!(matches!(begin(Some(&good), None, None), DecryptStep::Session(_)));
    assert!(matches!(begin(None, Some(&good), None), DecryptStep::Session(_)));

    let invite = |opk| match begin(Some(&good), Some(&good), opk) {
        DecryptStep::IdentityKey(s) => s,
        _ => panic!(),
    };
    assert_eq!(invite(None).invitation.spk_id, 7);
    assert_eq!(decrypt_failure(invite(None).resume(Err(down()))), "Storage error: down");
    assert_eq!(
        decrypt_failure(invite(None).resume(Ok(None))),
        "Storage error: Identity key missing"
    );
    let spk = |opk| match invite(opk).resume(Ok(Some(pair(&bob.identity_key)))) {
        DecryptStep::SignedPreKey(s) => s,
        _ => panic!(),
    };
    assert_eq!(decrypt_failure(spk(None).resume(Err(down()))), "Storage error: down");
    assert_eq!(decrypt_failure(spk(None).resume(Ok(None))), "Storage error: SPK missing");
    let opk = || match spk(Some(3)).resume(Ok(Some(pair(&bob.signed_pre_key)))) {
        DecryptStep::OneTimePreKey(s) => s,
        _ => panic!(),
    };
    assert_eq!(opk().opk_id, 3);
    assert_eq!(decrypt_failure(opk().resume(Err(down()))), "Storage error: down");
    let DecryptStep::Agree(a) = opk().resume(Ok(None)) else { panic!() };
    assert!(a.one_time_secret.is_none());

    let agree = |spk_pub: [u8; 33]| {
        let key = (bob.signed_pre_key.secret, spk_pub);
        match spk(None).resume(Ok(Some(key))) {
            DecryptStep::Agree(a) => a,
            _ => panic!(),
        }
    };
    assert_eq!(decrypt_failure(agree([0u8; 33]).agree()), "Crypto error: Invalid SPK pub");
    let DecryptStep::LocalIdentity(s) = agree(bob.signed_pre_key.public).agree() else { panic!() };
    assert_eq!(
        decrypt_failure(s.resume(Ok(None))),
        "Storage error: Identity key missing"
    );
    let DecryptStep::LocalIdentity(s) = agree(bob.signed_pre_key.public).agree() else { panic!() };
    let complaint = decrypt_failure(s.resume(Ok(Some(pair(&bob.identity_key)))));
    assert!(complaint.starts_with("Crypto error: Invalid ciphertext base64: "));

    let mut bad_header = envelope(Some(&good), Some(&good), None);
    bad_header.header = "?".to_string();
    let DecryptStep::IdentityKey(s) = begin_decrypt(Ok(bad_header), "alice", "a1") else { panic!() };
    let DecryptStep::SignedPreKey(s) = s.resume(Ok(Some(pair(&bob.identity_key)))) else { panic!() };
    let DecryptStep::Agree(a) = s.resume(Ok(Some(pair(&bob.signed_pre_key)))) else { panic!() };
    let DecryptStep::LocalIdentity(s) = a.agree() else { panic!() };
    let complaint = decrypt_failure(s.resume(Ok(Some(pair(&bob.identity_key)))));
    assert!(complaint.starts_with("Crypto error: Invalid header base64: "));

    let session = || match begin(None, None, None) {
        DecryptStep::Session(s) => s,
        _ => panic!(),
    };
    assert_eq!(decrypt_failure(session().resume(Err(down()))), "Storage error: down");
    assert_eq!(
        decrypt_failure(session().resume(Ok(None))),
        "Crypto error: No session found and message is not an X3DH initial"
    );
    assert_eq!(
        decrypt_failure(session().resume(Ok(Some(Err("bad".to_string()))))),
        "Storage error: Session deserialize error: bad"
    );
}

#[test]
fn keys_off_the_curve_are_noticed() {
    let bob = generate_registration_keys(0);
    let mut twist = [0u8; 33];
    twist[0] = 5;
    twist[1] = 2;
    let mut zero = [0u8; 33];
    zero[0] = 5;
    let agreement = |ik: [u8; 33], ek: [u8; 33]| {
        let envelope = EncryptedPayload {
            ciphertext: String::new(),
            header: String::new(),
            timestamp: 0,
            identity_key: Some(STANDARD.encode(ik)),
            ephemeral_key: Some(STANDARD.encode(ek)),
            spk_id: None,
            opk_id: None,
        };
        let DecryptStep::IdentityKey(s) = begin_decrypt(Ok(envelope), "a", "a1") else { panic!() };
        let DecryptStep::SignedPreKey(s) = s.resume(Ok(Some(pair(&bob.identity_key)))) else {
            panic!()
        };
        match s.resume(Ok(Some(pair(&bob.signed_pre_key)))) {
            DecryptStep::Agree(a) => a,
            _ => panic!(),
        }
    };
    assert!(!agreement(twist, bob.identity_key.public).is_readable());
    assert!(!agreement(bob.identity_key.public, twist).is_readable());
    let refused = agreement(zero, twist);
    assert!(refused.is_readable());
    assert_eq!(decrypt_failure(refused.agree()), "X3DH error: InvalidKey");
    // The point with u-coordinate 1 has order 4.
    let mut one = zero;
    one[1] = 1;
    let refused = agreement(bob.identity_key.public, one);
    assert!(refused.is_readable());
    assert_eq!(decrypt_failure(refused.agree()), "X3DH error: InvalidKey");
    // The two u-coordinates of the points of order 8.
    let order_8: [[u8; 32]; 2] = [
        [
            0xe0, 0xeb, 0x7a, 0x7c, 0x3b, 0x41, 0xb8, 0xae, 0x16, 0x56, 0xe3, 0xfa, 0xf1, 0x9f, 0xc4, 0x6a, 0xda, 0x09, 0x8d, 0xeb, 0x9c, 0x32, 0xb1, 0xfd, 0x86, 0x62, 0x05, 0x16, 0x5f, 0x49, 0xb8, 0x00,
        ],
        [
            0x5f, 0x9c, 0x95, 0xbc, 0xa3, 0x50, 0x8c, 0x24, 0xb1, 0xd0, 0xb1, 0x55, 0x9c, 0x83, 0xef, 0x5b, 0x04, 0x44, 0x5c, 0xc4, 0x58, 0x1c, 0x8e, 0x86, 0xd8, 0x22, 0x4e, 0xdd, 0xd0, 0x9f, 0x11, 0x57,
        ],
    ];
    for u in order_8 {
        let mut key = zero;
        key[1..].copy_from_slice(&u);
        let refused = agreement(key, twist);
        assert!(refused.is_readable());
        assert_eq!(decrypt_failure(refused.agree()), "X3DH error: InvalidKey");
    }
}

#[test]
fn plaintext_is_handed_out_after_the_save() {
    let alice = generate_registration_keys(0);
    let bob = generate_registration_keys(0);
    for saved in [true, false] {
        let (envelope, _) = send_first(&alice, "bob", bundle_of("bob", &bob, false), b"hello");
        let DecryptStep::IdentityKey(s) = begin_decrypt(Ok(envelope), "alice", "a1") else { panic!() };
        let DecryptStep::SignedPreKey(s) = s.resume(Ok(Some(pair(&bob.identity_key)))) else {
            panic!()
        };
        let DecryptStep::Agree(a) = s.resume(Ok(Some(pair(&bob.signed_pre_key)))) else { panic!() };
        let DecryptStep::LocalIdentity(s) = a.agree() else { panic!() };
        let DecryptStep::Save(s) = s.resume(Ok(Some(pair(&bob.identity_key)))) else { panic!() };
        if saved {
            let DecryptStep::Done(p) = s.resume(Ok(())) else { panic!() };
            assert_eq!(p, b"hello");
        } else {
            let step = s.resume(Err(SdkError::session_serialize("x")));
            assert_eq!(decrypt_failure(step), "Storage error: Session serialize error: x");
        }
    }
}

#[test]
fn registration_runs_through() {
    let oauth = begin_registration(2, "+1234567890");
    let (url, body) = oauth.request("http://h", "code", Some("verifier"), "cb");
    assert_eq!(url, "http://h/register/google/pkce");
    assert_eq!(body.i_key, STANDARD.encode(oauth.keys.identity_key.public));
    assert_eq!(body.code_verifier, Some("verifier".to_string()));
    let reply = GoogleRegisterResponse {
        status: "ok".to_string(),
        user_id: "u".to_string(),
        state: "state".to_string(),
        email: None,
        name: None,
        picture: None,
    };
    let identity_key = body.i_key;
    let RegisterStep::Device(s) = oauth.resume(Ok(reply)) else { panic!() };
    let (url, body) = s.request(&ApiClient::new("http://h".to_string())).ok().unwrap();
    assert_eq!(url, "http://h/register/device");
    assert_eq!(body.state, "state");
    assert_eq!(body.phone, "+1234567890");
    assert_eq!(body.opks.len(), 2);
    for opk in [None, Some((0, body.opks[0].as_str())), Some((1, body.opks[1].as_str()))] {
        let bundle =
            parse_prekey_bundle(&identity_key, &body.signed_pre_key, &body.pre_key_sign, opk)
                .ok()
                .unwrap();
        assert!(bundle.is_readable());
        let contact = ("user".to_string(), "device".to_string(), bundle);
        let sender = generate_registration_keys(0);
        let sent = encrypt_message_at(b"x", &pair(&sender.identity_key), None, Some(contact), Ok(1));
        assert_eq!(sent.ok().unwrap().0.opk_id, opk.map(|o| o.0));
    }
    let reply = DeviceRegisterResponse {
        status: "ok".to_string(),
        user_id: "user".to_string(),
        device_id: "device".to_string(),
    };
    let RegisterStep::SaveIdentity(s) = s.resume(Ok(reply)) else { panic!() };
    let publics = s.keys.opk_public_keys();
    let RegisterStep::SavePreKey(s) = s.resume(Ok(())) else { panic!() };
    assert_eq!(s.key_id, 1);
    let RegisterStep::SaveOpks(s) = s.resume(Ok(())) else { panic!() };
    assert_eq!(s.opks.len(), 2);
    assert_eq!(s.opks[1].0, 1);
    assert_eq!(s.opks[1].2, publics[1]);
    let RegisterStep::Done(ids) = s.resume(Ok(())) else { panic!() };
    assert_eq!(ids.user_id, "user");
    assert_eq!(ids.device_id, "device");
}

#[test]
fn registration_stops_at_the_first_failure() {
    let oauth = begin_registration(0, "+1");
    match oauth.resume(Err(SdkError::Api("no".to_string()))) {
        RegisterStep::Failed(e) => assert_eq!(e.to_string(), "API error: no"),
        _ => panic!("expected a failure"),
    }
}

#[test]
fn images_are_framed_with_the_time() {
    let framed = frame_image_with(Ok(0x1_0000_0005), Some("cap"), &[9]).unwrap();
    assert_eq!(
        decode_payload(&framed).unwrap(),
        DecodedPayload::Image { timestamp: 5, caption: "cap".to_string(), image_bytes: vec![9] }
    );
    let framed = frame_image_at(1726030464, None, &[1, 2]);
    assert_eq!(
        decode_payload(&framed).unwrap(),
        DecodedPayload::Image {
            timestamp: 1726030464,
            caption: String::new(),
            image_bytes: vec![1, 2]
        }
    );
    assert_eq!(
        frame_image_with(Err("late".to_string()), None, &[]).unwrap_err().to_string(),
        "Invalid operation: System time error: late"
    );
    match decode_payload(&frame_image(None, &[7]).unwrap()).unwrap() {
        DecodedPayload::Image { timestamp, image_bytes, .. } => {
            assert!(timestamp > 1_700_000_000);
            assert_eq!(image_bytes, vec![7]);
        }
        other => panic!("{:?}", other),
    }
}
