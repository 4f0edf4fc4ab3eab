//! The decisions of the MQTT transport: credentials, topics, and what to do on each event.
use vstd::prelude::*;
use vstd::string::*;
use vstd::utf8::*;

use crate::crypto::{auth_attested, auth_text, sign_user_at, signature_shaped};
use crate::crypto::{signature_texts, text_pair};
use crate::delivery::{law_acknowledging, law_holding_back, law_refusing, law_sending};
use crate::delivery::{lemma_accepted_tracks, Deliveries, DeliveryLedger};
use crate::encoding::{b64, b64_decoded, law_b64_is_read_back, lemma_b64_shape};
use crate::encoding::{bytes_or_text, seconds_at, seconds_view, unix_seconds};
use crate::error::{message, Failure, SdkError};
use crate::oauth::joined;
use crate::signal::{attests, curve_public, verifiable, vxeddsa_signed, vxeddsa_verified};
use crate::store::{InboxEntry, OutboxEntry};
use crate::text::{decimal, lemma_split_join, lemma_split_whole, split, split_string, texts};
use crate::transport::Event;

verus! {

// ---------------------------------------------------------------------------
// Credentials
// ---------------------------------------------------------------------------

/// The broker password of `user_id` at the time `now`, when the signer draws `nonce`: the signature
/// and the VRF output of user id and time, then the time.
pub open spec fn password_text(
    user_id: Seq<char>,
    key: Seq<u8>,
    now: Result<u64, Seq<char>>,
    nonce: Seq<u8>,
) -> Result<Seq<char>, Failure> {
    match now {
        Err(e) => Err(Failure::Mqtt(e)),
        Ok(t) => match signature_texts(
            vxeddsa_signed(key, encode_utf8(auth_text(user_id, t)), nonce),
        ) {
            Err(e) => Err(e),
            Ok(p) => Ok(p.0 + p.1 + decimal(t as nat)),
        },
    }
}

/// The contents of a text result.
pub open spec fn text_view(r: Result<String, SdkError>) -> Result<Seq<char>, Failure> {
    match r {
        Ok(s) => Ok(s@),
        Err(e) => Err(e@),
    }
}

/// Whether a password is laid out as 128 symbols of signature, 44 of VRF output, and the time.
pub open spec fn password_shaped(password: Seq<char>, seconds: u64) -> bool {
    &&& password.len() == 172 + decimal(seconds as nat).len()
    &&& signature_shaped(password.take(128), password.subrange(128, 172))
    &&& password.skip(172) == decimal(seconds as nat)
}

/// Generates the broker password at the time `now`.
pub fn mqtt_password_at(user_id: &str, signing_key: &[u8; 32], now: Result<u64, String>) -> (r:
    Result<String, SdkError>)
    ensures
        exists|nonce: Seq<u8>|
            text_view(r) == #[trigger] password_text(
                user_id@,
                signing_key@,
                seconds_view(now),
                nonce,
            ) && auth_attested(user_id@, signing_key@, seconds_view(now), nonce),
        r matches Ok(p) ==> (now matches Ok(t) && password_shaped(p@, t)),
{
    match now {
        Err(e) => {
            let r = Err(SdkError::Mqtt(e));
            assert(text_view(r) == password_text(
                user_id@,
                signing_key@,
                seconds_view(now),
                Seq::empty(),
            ));
            r
        },
        Ok(t) => {
            let (timestamp, signed) = sign_user_at(user_id, signing_key, t);
            let ghost nonce = choose|nonce: Seq<u8>|
                text_pair(signed) == signature_texts(
                    #[trigger] vxeddsa_signed(
                        signing_key@,
                        encode_utf8(auth_text(user_id@, t)),
                        nonce,
                    ),
                ) && attests(signing_key@, encode_utf8(auth_text(user_id@, t)), nonce);
            let r = match signed {
                Err(e) => Err(e),
                Ok((signature, vrf)) => {
                    let mut password = signature.clone();
                    password.append(vrf.as_str());
                    password.append(timestamp.as_str());
                    proof {
                        assert(password@.take(128) =~= signature@);
                        assert(password@.subrange(128, 172) =~= vrf@);
                        assert(password@.skip(172) =~= timestamp@);
                    }
                    Ok(password)
                },
            };
            assert(text_view(r) == password_text(
                user_id@,
                signing_key@,
                seconds_view(now),
                nonce,
            ));
            r
        },
    }
}

/// Generates a time-bounded broker password.
pub fn generate_mqtt_password(user_id: &str, signing_key: &[u8; 32]) -> (r: Result<
    String,
    SdkError,
>)
    ensures
        exists|t: std::time::SystemTime, nonce: Seq<u8>|
            text_view(r) == #[trigger] password_text(user_id@, signing_key@, seconds_at(t), nonce) && (
            r is Ok ==> seconds_at(t) is Ok && password_shaped(r->Ok_0@, seconds_at(t)->Ok_0))
                && auth_attested(user_id@, signing_key@, seconds_at(t), nonce),
{
    let now = unix_seconds();
    let ghost clock = seconds_view(now);
    let r = mqtt_password_at(user_id, signing_key, now);
    let ghost nonce = choose|nonce: Seq<u8>|
        text_view(r) == #[trigger] password_text(user_id@, signing_key@, clock, nonce)
            && auth_attested(user_id@, signing_key@, clock, nonce);
    assert(text_view(r) == password_text(user_id@, signing_key@, clock, nonce));
    r
}

/// There is a password whenever the clock can be read and signing gives something, and the time in it
/// is the clock's. Otherwise the error is that of the clock or that of the signer.
pub proof fn law_password_comes_of_clock_and_signer(
    user_id: Seq<char>,
    key: Seq<u8>,
    now: Result<u64, Seq<char>>,
    nonce: Seq<u8>,
)
    requires
        auth_attested(user_id, key, now, nonce),
    ensures
        match now {
            Err(e) => password_text(user_id, key, now, nonce) == Err::<Seq<char>, Failure>(
                Failure::Mqtt(e),
            ),
            Ok(t) => match vxeddsa_signed(
                key,
                encode_utf8(user_id + decimal(t as nat)),
                nonce,
            ) {
                Err(e) => password_text(user_id, key, now, nonce) == Err::<Seq<char>, Failure>(
                    Failure::VxEdDsa(e),
                ),
                Ok(signed) => password_text(user_id, key, now, nonce) matches Ok(password) && {
                    &&& password.skip(172) == decimal(t as nat)
                    &&& b64_decoded(password.take(128)) == Ok::<Seq<u8>, Seq<char>>(signed.0)
                    &&& b64_decoded(password.subrange(128, 172)) == Ok::<Seq<u8>, Seq<char>>(
                        signed.1,
                    )
                },
            },
        },
{
    if let Ok(t) = now {
        if let Ok(signed) = vxeddsa_signed(key, encode_utf8(user_id + decimal(t as nat)), nonce) {
            let password = password_text(user_id, key, now, nonce)->Ok_0;
            lemma_b64_shape(signed.0);
            lemma_b64_shape(signed.1);
            assert(password.take(128) =~= b64(signed.0));
            assert(password.subrange(128, 172) =~= b64(signed.1));
            assert(password.skip(172) =~= decimal(t as nat));
            law_b64_is_read_back(signed.0);
            law_b64_is_read_back(signed.1);
        }
    }
}

/// The broker can check a password with the public key alone: its first part is a signature of the
/// user id and of the time in its last part, and verifying gives the VRF output in between. This
/// holds of every text that can be signed so that it verifies.
pub proof fn law_password_verifies(
    user_id: Seq<char>,
    key: Seq<u8>,
    now: Result<u64, Seq<char>>,
    nonce: Seq<u8>,
    password: Seq<char>,
)
    requires
        auth_attested(user_id, key, now, nonce),
        password_text(user_id, key, now, nonce) == Ok::<Seq<char>, Failure>(password),
        verifiable(key, encode_utf8(user_id + password.skip(172))),
    ensures
        b64_decoded(password.take(128)) is Ok,
        b64_decoded(password.subrange(128, 172)) is Ok,
        vxeddsa_verified(
            curve_public(key),
            encode_utf8(user_id + password.skip(172)),
            b64_decoded(password.take(128))->Ok_0,
        ) == Some(b64_decoded(password.subrange(128, 172))->Ok_0),
{
    let t = now->Ok_0;
    let signed = vxeddsa_signed(key, encode_utf8(auth_text(user_id, t)), nonce)->Ok_0;
    lemma_b64_shape(signed.0);
    lemma_b64_shape(signed.1);
    assert(password.take(128) =~= b64(signed.0));
    assert(password.subrange(128, 172) =~= b64(signed.1));
    assert(password.skip(172) =~= decimal(t as nat));
    law_b64_is_read_back(signed.0);
    law_b64_is_read_back(signed.1);
}

// ---------------------------------------------------------------------------
// Connecting
// ---------------------------------------------------------------------------

/// Seconds between two signs of life on the connection.
pub const KEEP_ALIVE_SECONDS: u64 = 60;

/// How to connect to the broker.
pub struct ConnectionPlan {
    pub client_id: String,
    pub host: String,
    pub port: u16,
    pub username: String,
    pub password: String,
    pub keep_alive_seconds: u64,
    /// Whether the broker is to forget the session when the connection ends.
    pub clean_session: bool,
    pub use_tls: bool,
}

/// The contents of a [`ConnectionPlan`].
#[verifier::ext_equal]
pub struct Connection {
    pub client_id: Seq<char>,
    pub host: Seq<char>,
    pub port: u16,
    pub username: Seq<char>,
    pub password: Seq<char>,
    pub keep_alive_seconds: u64,
    pub clean_session: bool,
    pub use_tls: bool,
}

/// The contents of a plan.
pub open spec fn connection_view(r: Result<ConnectionPlan, SdkError>) -> Result<
    Connection,
    Failure,
> {
    match r {
        Ok(p) => Ok(
            Connection {
                client_id: p.client_id@,
                host: p.host@,
                port: p.port,
                username: p.username@,
                password: p.password@,
                keep_alive_seconds: p.keep_alive_seconds,
                clean_session: p.clean_session,
                use_tls: p.use_tls,
            },
        ),
        Err(e) => Err(e@),
    }
}

/// How to connect with a password, or why there is none.
pub open spec fn connection_with(
    host: Seq<char>,
    port: u16,
    use_tls: bool,
    user_id: Seq<char>,
    device_id: Seq<char>,
    password: Result<Seq<char>, Failure>,
) -> Result<Connection, Failure> {
    match password {
        Err(e) => Err(e),
        Ok(password) => Ok(
            Connection {
                client_id: device_id,
                host,
                port,
                username: user_id,
                password,
                keep_alive_seconds: KEEP_ALIVE_SECONDS,
                clean_session: false,
                use_tls,
            },
        ),
    }
}

/// Plans a connection with a password, or reports why there is none.
pub fn connection_plan_with(
    host: &str,
    port: u16,
    use_tls: bool,
    user_id: &str,
    device_id: &str,
    password: Result<String, SdkError>,
) -> (r: Result<ConnectionPlan, SdkError>)
    ensures
        connection_view(r) == connection_with(
            host@,
            port,
            use_tls,
            user_id@,
            device_id@,
            text_view(password),
        ),
        r is Ok <==> password is Ok,
        r matches Ok(p) ==> {
            &&& p.host@ == host@
            &&& p.port == port
            &&& p.use_tls == use_tls
            &&& p.username@ == user_id@
            &&& p.client_id@ == device_id@
            &&& p.password@ == password->Ok_0@
            &&& p.keep_alive_seconds == 60
            &&& !p.clean_session
        },
{
    match password {
        Err(e) => Err(e),
        Ok(password) => Ok(
            ConnectionPlan {
                client_id: device_id.to_owned(),
                host: host.to_owned(),
                port,
                username: user_id.to_owned(),
                password,
                keep_alive_seconds: KEEP_ALIVE_SECONDS,
                clean_session: false,
                use_tls,
            },
        ),
    }
}

/// Plans a connection for a user's device, with a password signed by `signing_key`. The device id
/// is the client id, the user id is the user name, and the broker keeps the session.
pub fn connection_plan(
    host: &str,
    port: u16,
    use_tls: bool,
    user_id: &str,
    device_id: &str,
    signing_key: &[u8; 32],
) -> (r: Result<ConnectionPlan, SdkError>)
    ensures
        exists|t: std::time::SystemTime, nonce: Seq<u8>|
            connection_view(r) == connection_with(
                host@,
                port,
                use_tls,
                user_id@,
                device_id@,
                #[trigger] password_text(user_id@, signing_key@, seconds_at(t), nonce),
            ) && auth_attested(user_id@, signing_key@, seconds_at(t), nonce),
        r matches Ok(p) ==> {
            &&& p.host@ == host@
            &&& p.port == port
            &&& p.use_tls == use_tls
            &&& p.username@ == user_id@
            &&& p.client_id@ == device_id@
            &&& p.keep_alive_seconds == 60
            &&& !p.clean_session
        },
{
    let password = generate_mqtt_password(user_id, signing_key);
    connection_plan_with(host, port, use_tls, user_id, device_id, password)
}

/// A plan carries out the configuration: host, port and TLS setting are those that were asked for,
/// whichever they are, the user logs in under the user id with the password, the device is known to
/// the broker by the device id, and the broker keeps the session between connections. There is a
/// plan exactly when there is a password, and otherwise the error says why there is none.
pub proof fn law_plan_carries_out_the_configuration(
    host: Seq<char>,
    port: u16,
    use_tls: bool,
    user_id: Seq<char>,
    device_id: Seq<char>,
    password: Result<Seq<char>, Failure>,
    plan: Result<ConnectionPlan, SdkError>,
)
    requires
        connection_view(plan) == connection_with(
            host,
            port,
            use_tls,
            user_id,
            device_id,
            password,
        ),
    ensures
        match (plan, password) {
            (Ok(p), Ok(password)) => {
                &&& p.host@ == host
                &&& p.port == port
                &&& p.use_tls == use_tls
                &&& p.username@ == user_id
                &&& p.client_id@ == device_id
                &&& p.password@ == password
                &&& p.keep_alive_seconds == 60
                &&& !p.clean_session
            },
            (Err(e), Err(f)) => e@ == f,
            _ => false,
        },
{
}

/// The broker can check a plan with the public key alone: the first part of the password is a signature
/// of the user name and of the time in its last part, and verifying gives the VRF output in between.
/// This holds of every text that can be signed so that it verifies.
pub proof fn law_broker_can_check_the_plan(
    host: Seq<char>,
    port: u16,
    use_tls: bool,
    user_id: Seq<char>,
    device_id: Seq<char>,
    key: Seq<u8>,
    now: Result<u64, Seq<char>>,
    nonce: Seq<u8>,
    p: ConnectionPlan,
)
    requires
        auth_attested(user_id, key, now, nonce),
        connection_view(Ok(p)) == connection_with(
            host,
            port,
            use_tls,
            user_id,
            device_id,
            password_text(user_id, key, now, nonce),
        ),
        verifiable(key, encode_utf8(p.username@ + p.password@.skip(172))),
    ensures
        now matches Ok(t) && p.password@.skip(172) == decimal(t as nat),
        b64_decoded(p.password@.take(128)) is Ok,
        b64_decoded(p.password@.subrange(128, 172)) is Ok,
        vxeddsa_verified(
            curve_public(key),
            encode_utf8(p.username@ + p.password@.skip(172)),
            b64_decoded(p.password@.take(128))->Ok_0,
        ) == Some(b64_decoded(p.password@.subrange(128, 172))->Ok_0),
{
    law_password_comes_of_clock_and_signer(user_id, key, now, nonce);
    law_password_verifies(user_id, key, now, nonce, p.password@);
}

/// The TLS setting is the caller's alone: two plans that differ in nothing else differ in whether
/// they use TLS, and in nothing else.
pub proof fn law_tls_setting_is_the_callers(
    host: Seq<char>,
    port: u16,
    user_id: Seq<char>,
    device_id: Seq<char>,
    password: Seq<char>,
    with: ConnectionPlan,
    without: ConnectionPlan,
)
    requires
        connection_view(Ok(with)) == connection_with(
            host,
            port,
            true,
            user_id,
            device_id,
            Ok(password),
        ),
        connection_view(Ok(without)) == connection_with(
            host,
            port,
            false,
            user_id,
            device_id,
            Ok(password),
        ),
    ensures
        with.use_tls && !without.use_tls,
        with.host@ == without.host@ && with.port == without.port,
        with.client_id@ == without.client_id@,
        with.username@ == without.username@ && with.password@ == without.password@,
        with.keep_alive_seconds == without.keep_alive_seconds,
        with.clean_session == without.clean_session,
{
}

// ---------------------------------------------------------------------------
// Topics
// ---------------------------------------------------------------------------

/// The topic under which a message travels.
pub open spec fn topic_text(
    recipient_id: Seq<char>,
    recipient_device_id: Seq<char>,
    user_id: Seq<char>,
    device_id: Seq<char>,
) -> Seq<char> {
    inbox_prefix(recipient_id, recipient_device_id) + user_id + seq!['/'] + device_id
}

/// What the topics of all messages to a device begin with.
pub open spec fn inbox_prefix(user_id: Seq<char>, device_id: Seq<char>) -> Seq<char> {
    "/deezchatz/"@ + user_id + seq!['/'] + device_id + seq!['/']
}

/// `/deezchatz/{user_id}/{device_id}/`, what the topics of all messages to a device begin with.
fn inbox_prefix_string(user_id: &str, device_id: &str) -> (r: String)
    ensures
        r@ == inbox_prefix(user_id@, device_id@),
{
    proof {
        reveal_strlit("/");
        assert("/"@ =~= seq!['/']);
    }
    let mut topic: String = "/deezchatz/".to_owned();
    topic.append(user_id);
    topic.append("/");
    topic.append(device_id);
    topic.append("/");
    topic
}

/// The topic for a message to a recipient's device:
/// `/deezchatz/{recipient_user_id}/{recipient_device_id}/{sender_user_id}/{sender_device_id}`.
pub fn message_topic(
    recipient_id: &str,
    recipient_device_id: &str,
    user_id: &str,
    device_id: &str,
) -> (r: String)
    ensures
        r@ == topic_text(recipient_id@, recipient_device_id@, user_id@, device_id@),
{
    proof {
        reveal_strlit("/");
        assert("/"@ =~= seq!['/']);
    }
    let mut topic = inbox_prefix_string(recipient_id, recipient_device_id);
    topic.append(user_id);
    topic.append("/");
    topic.append(device_id);
    topic
}

/// The filter that a device subscribes to: `/deezchatz/{user_id}/{device_id}/#`.
pub fn subscription_topic(user_id: &str, device_id: &str) -> (r: String)
    ensures
        r@ == inbox_prefix(user_id@, device_id@) + "#"@,
{
    let mut topic = inbox_prefix_string(user_id, device_id);
    topic.append("#");
    topic
}

/// The sender that a topic names, as user id and device id, if it has enough levels.
pub open spec fn topic_sender(topic: Seq<char>) -> Option<(Seq<char>, Seq<char>)> {
    let parts = split(topic, '/');
    if parts.len() >= 6 {
        Some((parts[4], parts[5]))
    } else {
        None
    }
}

/// The sender that a topic names, as user id and device id.
pub fn sender_of_topic(topic: &str) -> (r: Option<(String, String)>)
    ensures
        match r {
            Some(s) => topic_sender(topic@) == Some((s.0@, s.1@)),
            None => topic_sender(topic@) is None,
        },
{
    let mut parts = split_string(topic, '/');
    assert(texts(parts@).len() == parts@.len());
    if parts.len() >= 6 {
        assert(texts(parts@)[4] == parts@[4]@);
        assert(texts(parts@)[5] == parts@[5]@);
        let device_id = parts.remove(5);
        let user_id = parts.remove(4);
        Some((user_id, device_id))
    } else {
        None
    }
}

/// The topic of a message begins with what the recipient's device subscribes to.
pub proof fn law_messages_reach_the_subscription(
    recipient_id: Seq<char>,
    recipient_device_id: Seq<char>,
    user_id: Seq<char>,
    device_id: Seq<char>,
)
    ensures
        inbox_prefix(recipient_id, recipient_device_id).is_prefix_of(
            topic_text(recipient_id, recipient_device_id, user_id, device_id),
        ),
{
    let topic = topic_text(recipient_id, recipient_device_id, user_id, device_id);
    let prefix = inbox_prefix(recipient_id, recipient_device_id);
    assert(topic.take(prefix.len() as int) =~= prefix);
}

/// The levels of a topic are a name for the service, then user and device of the recipient, then user
/// and device of the sender; a device subscribes to whatever comes behind its own user and device.
pub proof fn law_levels_of_topics(
    recipient_id: Seq<char>,
    recipient_device_id: Seq<char>,
    user_id: Seq<char>,
    device_id: Seq<char>,
)
    ensures
        topic_text(recipient_id, recipient_device_id, user_id, device_id) == joined(
            seq![
                Seq::empty(),
                "deezchatz"@,
                recipient_id,
                recipient_device_id,
                user_id,
                device_id,
            ],
            '/',
        ),
        inbox_prefix(user_id, device_id) + "#"@ == joined(
            seq![Seq::empty(), "deezchatz"@, user_id, device_id, "#"@],
            '/',
        ),
{
    reveal_strlit("/deezchatz/");
    reveal_strlit("deezchatz");
    reveal_with_fuel(joined, 7);
    let none = Seq::<char>::empty();
    let name = "deezchatz"@;
    let slash = seq!['/'];
    assert("/deezchatz/"@ =~= slash + name + slash);
    let topic = seq![none, name, recipient_id, recipient_device_id, user_id, device_id];
    let t5 = topic.drop_last();
    let t4 = t5.drop_last();
    let t3 = t4.drop_last();
    let t2 = t3.drop_last();
    let t1 = t2.drop_last();
    assert(t1.len() == 1 && t1[0] == none);
    assert(joined(topic, '/') =~= topic_text(
        recipient_id,
        recipient_device_id,
        user_id,
        device_id,
    ));
    let filter = seq![none, name, user_id, device_id, "#"@];
    let f4 = filter.drop_last();
    let f3 = f4.drop_last();
    let f2 = f3.drop_last();
    let f1 = f2.drop_last();
    assert(f1.len() == 1 && f1[0] == none);
    assert(joined(filter, '/') =~= inbox_prefix(user_id, device_id) + "#"@);
}

/// A topic names a sender exactly when it has at least six levels, and then the fifth is the user and
/// the sixth the device, whatever comes behind.
pub proof fn law_sender_is_a_level(topic: Seq<char>)
    ensures
        match topic_sender(topic) {
            Some(sender) => {
                &&& split(topic, '/').len() >= 6
                &&& sender.0 == split(topic, '/')[4]
                &&& sender.1 == split(topic, '/')[5]
            },
            None => split(topic, '/').len() < 6,
        },
{
}

/// The recipient reads the sender's user id and device id from the topic of a message, as long as no
/// id contains a slash.
pub proof fn law_topic_names_the_sender(
    recipient_id: Seq<char>,
    recipient_device_id: Seq<char>,
    user_id: Seq<char>,
    device_id: Seq<char>,
)
    requires
        !recipient_id.contains('/'),
        !recipient_device_id.contains('/'),
        !user_id.contains('/'),
        !device_id.contains('/'),
    ensures
        topic_sender(topic_text(recipient_id, recipient_device_id, user_id, device_id)) == Some(
            (user_id, device_id),
        ),
{
    reveal_strlit("/deezchatz/");
    reveal_strlit("deezchatz");
    let none = Seq::<char>::empty();
    let name = "deezchatz"@;
    let topic = topic_text(recipient_id, recipient_device_id, user_id, device_id);
    let s5 = user_id + seq!['/'] + device_id;
    let s4 = recipient_device_id + seq!['/'] + s5;
    let s3 = recipient_id + seq!['/'] + s4;
    let s2 = name + seq!['/'] + s3;
    let s1 = none + seq!['/'] + s2;
    assert("/deezchatz/"@ =~= seq!['/'] + name + seq!['/']);
    assert(topic =~= s1);
    assert(!name.contains('/')) by {
        assert(name =~= seq!['d', 'e', 'e', 'z', 'c', 'h', 'a', 't', 'z']);
    }
    lemma_split_join(none, s2, '/');
    lemma_split_join(name, s3, '/');
    lemma_split_join(recipient_id, s4, '/');
    lemma_split_join(recipient_device_id, s5, '/');
    lemma_split_join(user_id, device_id, '/');
    lemma_split_whole(none, '/');
    lemma_split_whole(name, '/');
    lemma_split_whole(recipient_id, '/');
    lemma_split_whole(recipient_device_id, '/');
    lemma_split_whole(user_id, '/');
    lemma_split_whole(device_id, '/');
    assert(split(topic, '/') =~= seq![
        none,
        name,
        recipient_id,
        recipient_device_id,
        user_id,
        device_id,
    ]);
}

// ---------------------------------------------------------------------------
// Incoming messages
// ---------------------------------------------------------------------------

/// What to write down about an inbox entry.
#[derive(Debug)]
pub enum InboxMark {
    Processed(i64),
    Failed(i64, String),
}

/// The contents of an [`InboxMark`].
#[verifier::ext_equal]
pub enum Mark {
    Processed(i64),
    Failed(i64, Seq<char>),
}

impl View for InboxMark {
    type V = Mark;

    open spec fn view(&self) -> Mark {
        match self {
            InboxMark::Processed(id) => Mark::Processed(*id),
            InboxMark::Failed(id, e) => Mark::Failed(*id, e@),
        }
    }
}

/// The contents of a mark that may be absent.
pub open spec fn optional_mark(m: Option<InboxMark>) -> Option<Mark> {
    match m {
        Some(m) => Some(m@),
        None => None,
    }
}

/// The contents of an [`Event`].
#[verifier::ext_equal]
pub enum Signal {
    Connected,
    Disconnected,
    MessageReceived(Seq<char>, Seq<u8>),
}

impl View for Event {
    type V = Signal;

    open spec fn view(&self) -> Signal {
        match self {
            Event::Connected => Signal::Connected,
            Event::Disconnected => Signal::Disconnected,
            Event::MessageReceived { sender, plaintext } => Signal::MessageReceived(
                sender@,
                plaintext@,
            ),
        }
    }
}

/// A message that the inbox was asked to save, or that comes from it. There is no other way to one.
#[derive(Debug)]
pub struct Intake {
    topic: String,
    payload: Vec<u8>,
    inbox_id: Option<i64>,
}

/// The contents of an [`Intake`].
#[verifier::ext_equal]
pub struct Arrival {
    pub topic: Seq<char>,
    pub payload: Seq<u8>,
    /// The inbox entry, if the message could be saved.
    pub inbox_id: Option<i64>,
}

impl Intake {
    /// The message.
    pub closed spec fn view(&self) -> Arrival {
        Arrival { topic: self.topic@, payload: self.payload@, inbox_id: self.inbox_id }
    }
}

/// The contents of the inbox's answer to a message that it was asked to save.
pub open spec fn inbox_reply(reply: Result<i64, SdkError>) -> Result<i64, Failure> {
    match reply {
        Ok(id) => Ok(id),
        Err(e) => Err(e@),
    }
}

/// The message that the inbox was asked to save. It is processed even if that failed.
pub open spec fn taken_in(
    topic: Seq<char>,
    payload: Seq<u8>,
    reply: Result<i64, Failure>,
) -> Arrival {
    Arrival {
        topic,
        payload,
        inbox_id: match reply {
            Ok(id) => Some(id),
            Err(_) => None,
        },
    }
}

/// Takes in a message that arrived, given the inbox's answer to saving it.
pub fn saved(topic: String, payload: Vec<u8>, reply: Result<i64, SdkError>) -> (r: Intake)
    ensures
        r@ == taken_in(topic@, payload@, inbox_reply(reply)),
{
    let inbox_id = match reply {
        Ok(id) => Some(id),
        Err(_) => None,
    };
    Intake { topic, payload, inbox_id }
}

/// The message that the inbox holds as pending.
pub open spec fn held(entry: InboxEntry) -> Arrival {
    Arrival { topic: entry.topic@, payload: entry.payload@, inbox_id: Some(entry.id) }
}

/// Takes in a message that the inbox holds as pending.
pub fn pending(entry: InboxEntry) -> (r: Intake)
    ensures
        r@ == held(entry),
{
    Intake { topic: entry.topic, payload: entry.payload, inbox_id: Some(entry.id) }
}

/// The messages that the inbox holds as pending, in order.
pub open spec fn replayed(entries: Seq<InboxEntry>) -> Seq<Arrival> {
    entries.map_values(|e: InboxEntry| held(e))
}

/// Takes in the messages that the inbox holds as pending: each once, in order.
pub fn replay(entries: Vec<InboxEntry>) -> (r: Vec<Intake>)
    ensures
        r@.map_values(|a: Intake| a@) == replayed(entries@),
{
    let ghost all = entries@;
    let mut rest = entries;
    let mut backwards: Vec<Intake> = Vec::new();
    while rest.len() > 0
        invariant
            rest@.len() + backwards@.len() == all.len(),
            rest@ == all.take(rest@.len() as int),
            forall|k: int|
                0 <= k < backwards@.len() ==> (#[trigger] backwards@[k])@ == held(
                    all[all.len() - 1 - k],
                ),
        decreases rest@.len(),
    {
        match rest.pop() {
            Some(entry) => {
                assert(rest@ =~= all.take(rest@.len() as int));
                backwards.push(pending(entry));
            },
            None => {},
        }
    }
    let mut out: Vec<Intake> = Vec::new();
    while backwards.len() > 0
        invariant
            out@.len() + backwards@.len() == all.len(),
            forall|k: int|
                0 <= k < backwards@.len() ==> (#[trigger] backwards@[k])@ == held(
                    all[all.len() - 1 - k],
                ),
            forall|k: int| 0 <= k < out@.len() ==> (#[trigger] out@[k])@ == held(all[k]),
        decreases backwards@.len(),
    {
        match backwards.pop() {
            Some(intake) => {
                out.push(intake);
            },
            None => {},
        }
    }
    assert(out@.map_values(|a: Intake| a@) =~= replayed(all));
    out
}

/// A message that is attributed to a sender.
#[derive(Debug)]
pub struct Attributed {
    pub sender_id: String,
    pub sender_device_id: String,
    pub payload: Vec<u8>,
    pub inbox_id: Option<i64>,
}

/// Where an incoming message goes.
#[derive(Debug)]
pub enum Route {
    /// It is decrypted as a message from its sender.
    Decrypt(Attributed),
    /// It cannot be attributed to a sender.
    Reject(Option<InboxMark>),
}

/// The contents of a [`Route`]. A sender stands as user id and device id.
#[verifier::ext_equal]
pub enum Way {
    Decrypt((Seq<char>, Seq<char>), Seq<u8>, Option<i64>),
    Reject(Option<Mark>),
}

impl View for Route {
    type V = Way;

    open spec fn view(&self) -> Way {
        match self {
            Route::Decrypt(a) => Way::Decrypt(
                (a.sender_id@, a.sender_device_id@),
                a.payload@,
                a.inbox_id,
            ),
            Route::Reject(m) => Way::Reject(optional_mark(*m)),
        }
    }
}

/// The mark of a failed inbox entry, if there is an entry.
pub open spec fn failure_mark(inbox_id: Option<i64>, error: Seq<char>) -> Option<Mark> {
    match inbox_id {
        Some(id) => Some(Mark::Failed(id, error)),
        None => None,
    }
}

/// Where a message goes.
pub open spec fn way_of(arrival: Arrival) -> Way {
    match topic_sender(arrival.topic) {
        Some(sender) => Way::Decrypt(sender, arrival.payload, arrival.inbox_id),
        None => Way::Reject(failure_mark(arrival.inbox_id, "Invalid topic structure"@)),
    }
}

/// Decides where a message goes.
pub fn route_message(intake: Intake) -> (r: Route)
    ensures
        r@ == way_of(intake@),
{
    match sender_of_topic(intake.topic.as_str()) {
        Some((sender_id, sender_device_id)) => Route::Decrypt(
            Attributed {
                sender_id,
                sender_device_id,
                payload: intake.payload,
                inbox_id: intake.inbox_id,
            },
        ),
        None => match intake.inbox_id {
            Some(id) => Route::Reject(
                Some(InboxMark::Failed(id, "Invalid topic structure".to_owned())),
            ),
            None => Route::Reject(None),
        },
    }
}

/// What follows the decryption of a message.
#[derive(Debug)]
pub struct Conclusion {
    /// What to write down, before anything is emitted.
    pub mark: Option<InboxMark>,
    /// The event to emit.
    pub event: Option<Event>,
}

/// The mark and the event that follow a decryption. A failure is described by `outcome`.
pub open spec fn concluded(
    sender: Seq<char>,
    inbox_id: Option<i64>,
    outcome: Result<Seq<u8>, Seq<char>>,
) -> (Option<Mark>, Option<Signal>) {
    match outcome {
        Ok(plaintext) => (
            match inbox_id {
                Some(id) => Some(Mark::Processed(id)),
                None => None,
            },
            Some(Signal::MessageReceived(sender, plaintext)),
        ),
        Err(e) => (failure_mark(inbox_id, "Decryption error: "@ + e), None),
    }
}

impl View for Conclusion {
    type V = (Option<Mark>, Option<Signal>);

    open spec fn view(&self) -> (Option<Mark>, Option<Signal>) {
        (
            optional_mark(self.mark),
            match self.event {
                Some(e) => Some(e@),
                None => None,
            },
        )
    }
}

/// Decides what follows the decryption of a message.
pub fn conclude_message(
    sender: String,
    inbox_id: Option<i64>,
    outcome: Result<Vec<u8>, String>,
) -> (r: Conclusion)
    ensures
        r@ == concluded(sender@, inbox_id, bytes_or_text(outcome)),
        outcome matches Ok(p) ==> r.event matches Some(
            Event::MessageReceived { sender: s, plaintext },
        ) && s@ == sender@ && plaintext@ == p@,
        outcome is Err ==> r.event is None,
        r.mark is Some <==> inbox_id is Some,
        r.mark matches Some(InboxMark::Processed(id)) ==> outcome is Ok && inbox_id == Some(id),
        r.mark matches Some(InboxMark::Failed(id, _)) ==> outcome is Err && inbox_id == Some(id),
{
    match outcome {
        Ok(plaintext) => {
            let mark = match inbox_id {
                Some(id) => Some(InboxMark::Processed(id)),
                None => None,
            };
            Conclusion { mark, event: Some(Event::MessageReceived { sender, plaintext }) }
        },
        Err(e) => {
            let mark = match inbox_id {
                Some(id) => Some(
                    InboxMark::Failed(id, message("Decryption error: ", e.as_str())),
                ),
                None => None,
            };
            Conclusion { mark, event: None }
        },
    }
}

// ---------------------------------------------------------------------------
// The worker
// ---------------------------------------------------------------------------

/// What the connection reports.
#[derive(Debug)]
pub enum BrokerEvent {
    /// The broker accepted the connection, and says whether it kept the session.
    ConnAck { session_present: bool },
    /// A message arrived.
    Publish { topic: String, payload: Vec<u8> },
    /// A message of ours went out under a packet id.
    Sent(u16),
    /// A message of ours waits for its packet id.
    AwaitAck(u16),
    /// The broker acknowledged a packet id.
    PubAck(u16),
    /// A message of ours was too large to be sent, and the connection is lost with it. The outbox
    /// records the failure: left pending, the message would be handed over on the next connection
    /// and end that one as well.
    TooLarge(String),
    /// The connection is lost.
    Lost,
    /// Our farewell to the broker went out.
    DisconnectSent,
    /// Anything else.
    Other,
}

/// What the worker is to do.
#[derive(Debug)]
pub enum WorkerAction {
    /// Subscribe to a topic filter with at-least-once delivery.
    Subscribe(String),
    /// Emit an event.
    Emit(Event),
    /// Process the pending entries of the inbox.
    ReplayInbox,
    /// Publish the pending entries of the outbox that are not on their way.
    FlushOutbox,
    /// Save a message to the inbox as it arrived. It is processed with [`saved`].
    SaveToInbox { topic: String, payload: Vec<u8> },
    /// Mark an outbox entry as sent.
    MarkSent(i64),
    /// Mark an outbox entry as failed.
    MarkFailed(i64, String),
    /// Wait for a number of seconds.
    Wait(u64),
    /// Put a fresh password into the connection options.
    RefreshPassword,
    /// Stop working.
    Stop,
}

/// The contents of a [`WorkerAction`].
#[verifier::ext_equal]
pub enum Act {
    Subscribe(Seq<char>),
    Emit(Signal),
    ReplayInbox,
    FlushOutbox,
    SaveToInbox(Seq<char>, Seq<u8>),
    MarkSent(i64),
    MarkFailed(i64, Seq<char>),
    Wait(u64),
    RefreshPassword,
    Stop,
}

impl View for WorkerAction {
    type V = Act;

    open spec fn view(&self) -> Act {
        match self {
            WorkerAction::Subscribe(t) => Act::Subscribe(t@),
            WorkerAction::Emit(e) => Act::Emit(e@),
            WorkerAction::ReplayInbox => Act::ReplayInbox,
            WorkerAction::FlushOutbox => Act::FlushOutbox,
            WorkerAction::SaveToInbox { topic, payload } => Act::SaveToInbox(topic@, payload@),
            WorkerAction::MarkSent(id) => Act::MarkSent(*id),
            WorkerAction::MarkFailed(id, e) => Act::MarkFailed(*id, e@),
            WorkerAction::Wait(n) => Act::Wait(*n),
            WorkerAction::RefreshPassword => Act::RefreshPassword,
            WorkerAction::Stop => Act::Stop,
        }
    }
}

/// The contents of a list of actions.
pub open spec fn acts(actions: Seq<WorkerAction>) -> Seq<Act> {
    actions.map_values(|a: WorkerAction| a@)
}

/// Seconds to wait before the connection is tried again.
pub const RECONNECT_SECONDS: u64 = 3;

/// What is done about a lost connection: it is tried again after a while with a fresh password,
/// unless it was to be closed.
pub open spec fn after_loss(closing: bool) -> Seq<Act> {
    if closing {
        seq![Act::Emit(Signal::Disconnected), Act::Stop]
    } else {
        seq![Act::Emit(Signal::Disconnected), Act::Wait(RECONNECT_SECONDS), Act::RefreshPassword]
    }
}

/// What is done about an event.
pub open spec fn planned(
    user_id: Seq<char>,
    device_id: Seq<char>,
    deliveries: Deliveries,
    closing: bool,
    event: BrokerEvent,
) -> Seq<Act> {
    match event {
        BrokerEvent::ConnAck { session_present } => {
            let rest = seq![Act::Emit(Signal::Connected), Act::ReplayInbox, Act::FlushOutbox];
            if session_present {
                rest
            } else {
                seq![Act::Subscribe(inbox_prefix(user_id, device_id) + "#"@)] + rest
            }
        },
        BrokerEvent::Publish { topic, payload } => seq![Act::SaveToInbox(topic@, payload@)],
        BrokerEvent::Sent(_) => Seq::empty(),
        BrokerEvent::AwaitAck(_) => Seq::empty(),
        BrokerEvent::PubAck(packet) => match deliveries.confirms(packet) {
            Some(id) => seq![Act::MarkSent(id)],
            None => Seq::empty(),
        },
        BrokerEvent::TooLarge(e) => match deliveries.gives_up() {
            Some(id) => seq![Act::MarkFailed(id, e@)] + after_loss(closing),
            None => after_loss(closing),
        },
        BrokerEvent::Lost => after_loss(closing),
        BrokerEvent::DisconnectSent => after_loss(true),
        BrokerEvent::Other => Seq::empty(),
    }
}

/// What is on its way after an event.
pub open spec fn deliveries_after(deliveries: Deliveries, event: BrokerEvent) -> Deliveries {
    match event {
        BrokerEvent::Sent(packet) => deliveries.sent(packet),
        BrokerEvent::AwaitAck(packet) => deliveries.held_back(packet),
        BrokerEvent::PubAck(packet) => deliveries.acknowledged(packet),
        BrokerEvent::TooLarge(_) => deliveries.refused(),
        _ => deliveries,
    }
}

/// Appends what is done about a lost connection.
fn push_after_loss(actions: &mut Vec<WorkerAction>, closing: bool)
    ensures
        acts(final(actions)@) == acts(old(actions)@) + after_loss(closing),
{
    actions.push(WorkerAction::Emit(Event::Disconnected));
    if closing {
        actions.push(WorkerAction::Stop);
    } else {
        actions.push(WorkerAction::Wait(RECONNECT_SECONDS));
        actions.push(WorkerAction::RefreshPassword);
    }
    assert(acts(actions@) =~= acts(old(actions)@) + after_loss(closing));
}

/// Decides what the worker does about an event, in this order, and keeps the ledger.
///
/// An outbox entry is marked sent exactly when the broker acknowledges it. With `closing` the client
/// wants the connection to end.
pub fn plan(
    user_id: &str,
    device_id: &str,
    ledger: &mut DeliveryLedger,
    closing: bool,
    event: BrokerEvent,
) -> (r: Vec<WorkerAction>)
    requires
        old(ledger).wf(),
    ensures
        final(ledger).wf(),
        acts(r@) == planned(user_id@, device_id@, old(ledger)@, closing, event),
        final(ledger)@ == deliveries_after(old(ledger)@, event),
{
    let mut actions: Vec<WorkerAction> = Vec::new();
    let ghost expected = planned(user_id@, device_id@, ledger@, closing, event);
    match event {
        BrokerEvent::ConnAck { session_present } => {
            if !session_present {
                actions.push(WorkerAction::Subscribe(subscription_topic(user_id, device_id)));
            }
            actions.push(WorkerAction::Emit(Event::Connected));
            actions.push(WorkerAction::ReplayInbox);
            actions.push(WorkerAction::FlushOutbox);
        },
        BrokerEvent::Publish { topic, payload } => {
            actions.push(WorkerAction::SaveToInbox { topic, payload });
        },
        BrokerEvent::Sent(packet) => {
            ledger.on_sent(packet);
        },
        BrokerEvent::AwaitAck(packet) => {
            ledger.on_held_back(packet);
        },
        BrokerEvent::PubAck(packet) => {
            match ledger.on_ack(packet) {
                Some(id) => {
                    actions.push(WorkerAction::MarkSent(id));
                },
                None => {},
            }
        },
        BrokerEvent::TooLarge(e) => {
            match ledger.on_refused() {
                Some(id) => {
                    actions.push(WorkerAction::MarkFailed(id, e));
                },
                None => {},
            }
            push_after_loss(&mut actions, closing);
        },
        BrokerEvent::Lost => {
            push_after_loss(&mut actions, closing);
        },
        BrokerEvent::DisconnectSent => {
            push_after_loss(&mut actions, true);
        },
        BrokerEvent::Other => {},
    }
    assert(acts(actions@) =~= expected);
    actions
}

/// A deed in the handling of a message that arrived.
#[verifier::ext_equal]
pub enum Deed {
    /// The inbox is asked to save the message.
    Save(Seq<char>, Seq<u8>),
    /// The message is decrypted as one from a user's device, which is what touches keys and
    /// sessions.
    Decrypt((Seq<char>, Seq<char>), Seq<u8>),
    /// The inbox entry is marked.
    Mark(Mark),
    /// An event is emitted.
    Emit(Signal),
}

/// What a plan has done with a message that arrived.
pub open spec fn planned_deeds(plan: Seq<Act>) -> Seq<Deed>
    decreases plan.len(),
{
    if plan.len() == 0 {
        Seq::empty()
    } else {
        match plan.last() {
            Act::SaveToInbox(topic, payload) => planned_deeds(plan.drop_last()).push(
                Deed::Save(topic, payload),
            ),
            Act::Emit(signal) => planned_deeds(plan.drop_last()).push(Deed::Emit(signal)),
            _ => planned_deeds(plan.drop_last()),
        }
    }
}

/// The deed of marking an inbox entry, if there is one to mark.
pub open spec fn mark_deeds(mark: Option<Mark>) -> Seq<Deed> {
    match mark {
        Some(m) => seq![Deed::Mark(m)],
        None => Seq::empty(),
    }
}

/// The deed of emitting an event, if there is one.
pub open spec fn emit_deeds(signal: Option<Signal>) -> Seq<Deed> {
    match signal {
        Some(e) => seq![Deed::Emit(e)],
        None => Seq::empty(),
    }
}

/// What is done with a message once it is taken in, given the outcome of its decryption, if it has
/// come to that.
pub open spec fn processing(arrival: Arrival, outcome: Option<Result<Seq<u8>, Seq<char>>>) -> Seq<
    Deed,
> {
    match way_of(arrival) {
        Way::Reject(mark) => mark_deeds(mark),
        Way::Decrypt(sender, payload, inbox_id) => {
            let begun = seq![Deed::Decrypt(sender, payload)];
            match outcome {
                None => begun,
                Some(o) => begun + mark_deeds(concluded(sender.0, inbox_id, o).0) + emit_deeds(
                    concluded(sender.0, inbox_id, o).1,
                ),
            }
        },
    }
}

/// All that is done with a message that arrived, given the inbox's answer and the outcome of the
/// decryption, as far as they are there.
pub open spec fn handling(
    plan: Seq<Act>,
    topic: Seq<char>,
    payload: Seq<u8>,
    reply: Option<Result<i64, Failure>>,
    outcome: Option<Result<Seq<u8>, Seq<char>>>,
) -> Seq<Deed> {
    planned_deeds(plan) + match reply {
        None => Seq::empty(),
        Some(r) => processing(taken_in(topic, payload, r), outcome),
    }
}

/// An incoming message is saved before anything else happens to it: the inbox is asked to save it
/// exactly once, as it arrived, and until the inbox has answered it is not decrypted, nothing is
/// marked and nothing is emitted. What is decrypted then is the payload as it arrived, and only an
/// entry that the inbox has given out is marked.
pub proof fn law_saved_before_processed(
    user_id: Seq<char>,
    device_id: Seq<char>,
    deliveries: Deliveries,
    closing: bool,
    event: BrokerEvent,
    reply: Option<Result<i64, Failure>>,
    outcome: Option<Result<Seq<u8>, Seq<char>>>,
    i: int,
)
    requires
        event is Publish,
    ensures
        ({
            let topic = event->topic@;
            let payload = event->payload@;
            let plan = planned(user_id, device_id, deliveries, closing, event);
            let deeds = handling(plan, topic, payload, reply, outcome);
            &&& deeds.len() > 0
            &&& deeds[0] == Deed::Save(topic, payload)
            &&& reply is None ==> deeds.len() == 1
            &&& 0 < i < deeds.len() ==> {
                &&& reply is Some
                &&& deeds[i] !is Save
                &&& deeds[i] matches Deed::Decrypt(_, p) ==> p == payload
                &&& deeds[i] matches Deed::Mark(m) ==> (reply->0 matches Ok(id) && (m
                    == Mark::Processed(id) || (m matches Mark::Failed(k, _) && k == id)))
            }
        }),
{
    let plan = planned(user_id, device_id, deliveries, closing, event);
    reveal_with_fuel(planned_deeds, 2);
    assert(plan.drop_last() =~= Seq::<Act>::empty());
    assert(planned_deeds(plan) =~= seq![Deed::Save(event->topic@, event->payload@)]);
}

/// What follows a decryption: a message that decrypts is delivered, whatever its bytes are and
/// whether or not it has an inbox entry, under its sender's name and as it was decrypted; its entry is
/// marked processed. A message that does not decrypt is not delivered, and its entry is marked failed
/// with the reason.
pub proof fn law_conclusion_follows_the_outcome(
    sender: Seq<char>,
    inbox_id: Option<i64>,
    outcome: Result<Seq<u8>, Seq<char>>,
    c: Conclusion,
)
    requires
        c@ == concluded(sender, inbox_id, outcome),
    ensures
        match outcome {
            Ok(p) => c.event matches Some(Event::MessageReceived { sender: s, plaintext }) && s@
                == sender && plaintext@ == p,
            Err(_) => c.event is None,
        },
        match (outcome, inbox_id) {
            (_, None) => c.mark is None,
            (Ok(_), Some(id)) => c.mark == Some(InboxMark::Processed(id)),
            (Err(e), Some(id)) => c.mark matches Some(InboxMark::Failed(i, text)) && i == id
                && text@ == "Decryption error: "@ + e,
        },
{
}

/// Every message that decrypts is delivered, once: its handling ends with the event that names the
/// user of its topic and holds exactly what was decrypted, and nothing else is emitted. The entry of
/// the message, if it has one, is marked processed, and nothing else is marked.
pub proof fn law_decrypted_messages_are_delivered(arrival: Arrival, plaintext: Seq<u8>)
    requires
        split(arrival.topic, '/').len() >= 6,
    ensures
        ({
            let deeds = processing(arrival, Some(Ok(plaintext)));
            let n = deeds.len() as int;
            &&& n == if arrival.inbox_id is Some {
                3int
            } else {
                2
            }
            &&& deeds[0] == Deed::Decrypt(
                (split(arrival.topic, '/')[4], split(arrival.topic, '/')[5]),
                arrival.payload,
            )
            &&& arrival.inbox_id matches Some(id) ==> deeds[1] == Deed::Mark(Mark::Processed(id))
            &&& deeds[n - 1] == Deed::Emit(
                Signal::MessageReceived(split(arrival.topic, '/')[4], plaintext),
            )
        }),
{
}

/// An event says that a message was received only where it was decrypted, and an entry is marked
/// processed only where the event says so. Whatever else becomes of a message, its entry is marked
/// failed as soon as that is known.
pub proof fn law_processed_means_delivered(
    arrival: Arrival,
    outcome: Option<Result<Seq<u8>, Seq<char>>>,
    k: int,
)
    requires
        0 <= k < processing(arrival, outcome).len(),
    ensures
        ({
            let deeds = processing(arrival, outcome);
            let levels = split(arrival.topic, '/');
            &&& deeds[k] matches Deed::Emit(e) ==> (outcome matches Some(Ok(p)) && e
                == Signal::MessageReceived(levels[4], p) && levels.len() >= 6)
            &&& deeds[k] matches Deed::Mark(Mark::Processed(_)) ==> (outcome matches Some(Ok(p))
                && deeds.contains(Deed::Emit(Signal::MessageReceived(levels[4], p))))
            &&& deeds[k] matches Deed::Mark(Mark::Failed(_, e)) ==> if levels.len() < 6 {
                e == "Invalid topic structure"@
            } else {
                outcome matches Some(Err(f)) && e == "Decryption error: "@ + f
            }
        }),
        arrival.inbox_id matches Some(id) ==> {
            let deeds = processing(arrival, outcome);
            let levels = split(arrival.topic, '/');
            &&& levels.len() < 6 ==> deeds == seq![
                Deed::Mark(Mark::Failed(id, "Invalid topic structure"@)),
            ]
            &&& levels.len() >= 6 && outcome is Some && outcome->0 is Err ==> deeds == seq![
                Deed::Decrypt((levels[4], levels[5]), arrival.payload),
                Deed::Mark(Mark::Failed(id, "Decryption error: "@ + outcome->0->Err_0)),
            ]
        },
{
    let deeds = processing(arrival, outcome);
    let levels = split(arrival.topic, '/');
    if let Some(Ok(p)) = outcome {
        if levels.len() >= 6 {
            assert(deeds[deeds.len() - 1] == Deed::Emit(Signal::MessageReceived(levels[4], p)));
        }
    }
}

/// A message is routed by its topic alone: with enough levels it goes to decryption as it is, as one
/// from the device that the fifth and sixth level name, and otherwise it is turned down.
pub proof fn law_route_follows_the_topic(arrival: Arrival, r: Route)
    requires
        r@ == way_of(arrival),
    ensures
        match r {
            Route::Decrypt(a) => {
                &&& split(arrival.topic, '/').len() >= 6
                &&& a.sender_id@ == split(arrival.topic, '/')[4]
                &&& a.sender_device_id@ == split(arrival.topic, '/')[5]
                &&& a.payload@ == arrival.payload
                &&& a.inbox_id == arrival.inbox_id
            },
            Route::Reject(m) => {
                &&& split(arrival.topic, '/').len() < 6
                &&& match (m, arrival.inbox_id) {
                    (Some(InboxMark::Failed(i, e)), Some(id)) => i == id && e@
                        == "Invalid topic structure"@,
                    (None, None) => true,
                    _ => false,
                }
            },
        },
{
}

/// A message is taken in as it arrived, whether or not the inbox could save it, and under the entry
/// that the inbox has given it.
pub proof fn law_taken_in_as_it_arrived(
    topic: Seq<char>,
    payload: Seq<u8>,
    reply: Result<i64, Failure>,
)
    ensures
        taken_in(topic, payload, reply).topic == topic,
        taken_in(topic, payload, reply).payload == payload,
        reply matches Ok(id) ==> taken_in(topic, payload, reply).inbox_id == Some(id),
        reply is Err ==> taken_in(topic, payload, reply).inbox_id is None,
{
}

/// From the sender's client to the recipient's: a message under the topic of a sender's device is
/// delivered in the name of that sender, if it decrypts, as long as no id contains a slash.
pub proof fn law_delivery_names_the_sender(
    recipient: (Seq<char>, Seq<char>),
    sender: (Seq<char>, Seq<char>),
    payload: Seq<u8>,
    reply: Result<i64, Failure>,
    plaintext: Seq<u8>,
)
    requires
        !recipient.0.contains('/'),
        !recipient.1.contains('/'),
        !sender.0.contains('/'),
        !sender.1.contains('/'),
    ensures
        ({
            let topic = topic_text(recipient.0, recipient.1, sender.0, sender.1);
            let deeds = processing(taken_in(topic, payload, reply), Some(Ok(plaintext)));
            &&& deeds.len() > 1
            &&& deeds[0] == Deed::Decrypt(sender, payload)
            &&& deeds.last() == Deed::Emit(Signal::MessageReceived(sender.0, plaintext))
        }),
{
    law_topic_names_the_sender(recipient.0, recipient.1, sender.0, sender.1);
}

/// Every pending message of the inbox is replayed once, in order: processed as one that arrived,
/// under its own entry, and not saved again.
pub proof fn law_inbox_is_replayed(
    entries: Seq<InboxEntry>,
    i: int,
    outcome: Option<Result<Seq<u8>, Seq<char>>>,
)
    requires
        0 <= i < entries.len(),
    ensures
        replayed(entries).len() == entries.len(),
        ({
            let e = entries[i];
            let deeds = processing(replayed(entries)[i], outcome);
            &&& replayed(entries)[i] == (Arrival {
                topic: e.topic@,
                payload: e.payload@,
                inbox_id: Some(e.id),
            })
            &&& deeds == processing(taken_in(e.topic@, e.payload@, Ok(e.id)), outcome)
            &&& forall|k: int|
                0 <= k < deeds.len() ==> #[trigger] deeds[k] !is Save && (
                deeds[k] matches Deed::Decrypt(_, p) ==> p == e.payload@) && (
                deeds[k] matches Deed::Mark(m) ==> m == Mark::Processed(e.id) || (
                m matches Mark::Failed(id, _) && id == e.id))
        }),
{
}

/// Nothing is saved to the inbox but messages that arrive.
pub proof fn law_only_arrivals_are_saved(
    user_id: Seq<char>,
    device_id: Seq<char>,
    deliveries: Deliveries,
    closing: bool,
    event: BrokerEvent,
    topic: Seq<char>,
    payload: Seq<u8>,
)
    requires
        planned(user_id, device_id, deliveries, closing, event).contains(
            Act::SaveToInbox(topic, payload),
        ),
    ensures
        event matches BrokerEvent::Publish { topic: t, payload: p } && t@ == topic && p@ == payload,
{
}

// ---------------------------------------------------------------------------
// Outgoing messages
// ---------------------------------------------------------------------------

/// Takes note that the client did not take a message, with the client's account of why. Returns
/// what is to be done about it, and the error to report: both give the same account.
pub fn publish_refused(ledger: &mut DeliveryLedger, outbox_id: i64, error: String) -> (r: (
    WorkerAction,
    SdkError,
))
    requires
        old(ledger).wf(),
    ensures
        final(ledger).wf(),
        final(ledger)@ == old(ledger)@.withdrawn(outbox_id),
        r.0@ == Act::MarkFailed(outbox_id, error@),
        r.1@ == Failure::Mqtt(error@),
{
    ledger.withdraw(outbox_id);
    (WorkerAction::MarkFailed(outbox_id, error.clone()), SdkError::Mqtt(error))
}

/// A message that is to be handed to the client.
#[derive(Debug)]
pub struct Handover {
    pub outbox_id: i64,
    pub topic: String,
    pub payload: Vec<u8>,
}

/// The contents of a [`Handover`].
#[verifier::ext_equal]
pub struct Dispatch {
    pub outbox_id: i64,
    pub topic: Seq<char>,
    pub payload: Seq<u8>,
}

impl View for Handover {
    type V = Dispatch;

    open spec fn view(&self) -> Dispatch {
        Dispatch { outbox_id: self.outbox_id, topic: self.topic@, payload: self.payload@ }
    }
}

/// The message of an outbox entry: under its own id, on its own topic, with its own payload.
pub open spec fn dispatch_of(entry: OutboxEntry) -> Dispatch {
    Dispatch { outbox_id: entry.id, topic: entry.topic@, payload: entry.payload@ }
}

/// The messages of outbox entries, in order.
pub open spec fn dispatches(entries: Seq<OutboxEntry>) -> Seq<Dispatch> {
    entries.map_values(|e: OutboxEntry| dispatch_of(e))
}

/// The contents of messages that are to be handed over.
pub open spec fn handovers(out: Seq<Handover>) -> Seq<Dispatch> {
    out.map_values(|h: Handover| h@)
}

/// Which of the pending messages are handed over, and what is on its way then: each that is not on
/// its way already, in order.
pub open spec fn flushed(d: Deliveries, pending: Seq<Dispatch>) -> (Seq<Dispatch>, Deliveries)
    decreases pending.len(),
{
    if pending.len() == 0 {
        (Seq::empty(), d)
    } else {
        let (out, before) = flushed(d, pending.drop_last());
        let next = pending.last();
        if before.tracks(next.outbox_id) {
            (out, before)
        } else {
            (out.push(next), before.accepted(next.outbox_id))
        }
    }
}

/// Takes up the pending entries of the outbox. Returns what is to be handed to the client, in this
/// order and with nothing in between.
pub fn flush(ledger: &mut DeliveryLedger, entries: &Vec<OutboxEntry>) -> (r: Vec<Handover>)
    requires
        old(ledger).wf(),
    ensures
        final(ledger).wf(),
        (handovers(r@), final(ledger)@) == flushed(old(ledger)@, dispatches(entries@)),
{
    let ghost all = dispatches(entries@);
    let mut out: Vec<Handover> = Vec::new();
    let mut i: usize = 0;
    assert(handovers(out@) =~= Seq::<Dispatch>::empty());
    while i < entries.len()
        invariant
            i <= entries@.len(),
            all == dispatches(entries@),
            ledger.wf(),
            (handovers(out@), ledger@) == flushed(old(ledger)@, all.take(i as int)),
        decreases entries@.len() - i,
    {
        let entry = &entries[i];
        let ghost before = out@;
        if ledger.accept_pending(entry.id) {
            out.push(
                Handover {
                    outbox_id: entry.id,
                    topic: entry.topic.clone(),
                    payload: vstd::slice::slice_to_vec(entry.payload.as_slice()),
                },
            );
            assert(handovers(out@) =~= handovers(before).push(dispatch_of(*entry)));
        }
        proof {
            let next = all.take(i as int + 1);
            assert(next.drop_last() =~= all.take(i as int));
            assert(next.last() == dispatch_of(*entry));
        }
        i = i + 1;
    }
    assert(all.take(i as int) =~= all);
    out
}

/// An entry of the outbox is handed over as it stands: under its own id, on its own topic, with its own
/// payload, in its own place.
pub proof fn law_entries_are_handed_over_as_they_stand(
    entries: Seq<OutboxEntry>,
    k: int,
    h: Handover,
)
    requires
        0 <= k < entries.len(),
        h@ == dispatches(entries)[k],
    ensures
        dispatches(entries).len() == entries.len(),
        h.outbox_id == entries[k].id,
        h.topic@ == entries[k].topic@,
        h.payload@ == entries[k].payload@,
{
}

/// What is on its way after a flush: what was before, and every pending message.
proof fn lemma_flushed_tracks(d: Deliveries, pending: Seq<Dispatch>, id: i64)
    ensures
        flushed(d, pending).1.tracks(id) <==> d.tracks(id) || exists|k: int|
            0 <= k < pending.len() && (#[trigger] pending[k]).outbox_id == id,
    decreases pending.len(),
{
    if pending.len() > 0 {
        let rest = pending.drop_last();
        let next = pending.last();
        let before = flushed(d, rest).1;
        let after = flushed(d, pending).1;
        lemma_flushed_tracks(d, rest, id);
        lemma_accepted_tracks(before, next.outbox_id, id);
        assert(after.tracks(id) <==> before.tracks(id) || id == next.outbox_id);
        if id == next.outbox_id {
            assert(pending[pending.len() - 1].outbox_id == id);
        }
        if exists|k: int| 0 <= k < rest.len() && (#[trigger] rest[k]).outbox_id == id {
            let k = choose|k: int| 0 <= k < rest.len() && (#[trigger] rest[k]).outbox_id == id;
            assert(pending[k].outbox_id == id);
        }
        if exists|k: int| 0 <= k < pending.len() && (#[trigger] pending[k]).outbox_id == id {
            let k = choose|k: int|
                0 <= k < pending.len() && (#[trigger] pending[k]).outbox_id == id;
            if k < rest.len() {
                assert(rest[k].outbox_id == id);
            }
        }
    }
}

/// Whether no two pending messages have the same id.
pub open spec fn distinct(pending: Seq<Dispatch>) -> bool {
    forall|j: int, k: int|
        0 <= j < k < pending.len() ==> (#[trigger] pending[j]).outbox_id != (
        #[trigger] pending[k]).outbox_id
}

/// Whether the pending message at `k` is not on its way, and the first under its id.
pub open spec fn due(d: Deliveries, pending: Seq<Dispatch>, k: int) -> bool {
    &&& 0 <= k < pending.len()
    &&& !d.tracks(pending[k].outbox_id)
    &&& forall|j: int| 0 <= j < k ==> (#[trigger] pending[j]).outbox_id != pending[k].outbox_id
}

/// A flush hands over every pending message that is not on its way, on its own topic and with its
/// own payload. As no two entries of an outbox have the same id, it hands over no other, each once
/// and in order. Afterwards all pending messages are on their way.
pub proof fn law_every_pending_message_is_published(d: Deliveries, pending: Seq<Dispatch>)
    ensures
        forall|k: int| #[trigger]
            due(d, pending, k) ==> flushed(d, pending).0.contains(pending[k]),
        distinct(pending) ==> flushed(d, pending).0 == pending.filter(
            |p: Dispatch| !d.tracks(p.outbox_id),
        ),
        forall|k: int|
            0 <= k < pending.len() ==> flushed(d, pending).1.tracks(
                (#[trigger] pending[k]).outbox_id,
            ),
    decreases pending.len(),
{
    reveal(Seq::filter);
    if pending.len() > 0 {
        let rest = pending.drop_last();
        let next = pending.last();
        let before = flushed(d, rest).0;
        let out = flushed(d, pending).0;
        law_every_pending_message_is_published(d, rest);
        lemma_flushed_tracks(d, rest, next.outbox_id);
        assert forall|k: int| #[trigger] due(d, pending, k) implies out.contains(pending[k]) by {
            if k < rest.len() {
                assert forall|j: int| 0 <= j < k implies (#[trigger] rest[j]).outbox_id
                    != rest[k].outbox_id by {
                    assert(pending[j].outbox_id != pending[k].outbox_id);
                }
                assert(due(d, rest, k));
                let i = before.index_of(rest[k]);
                assert(out[i] == pending[k]);
            } else {
                assert forall|j: int| 0 <= j < rest.len() implies (#[trigger] rest[j]).outbox_id
                    != next.outbox_id by {
                    assert(pending[j].outbox_id != pending[k].outbox_id);
                }
                assert(out[before.len() as int] == next);
            }
        }
        if distinct(pending) {
            assert forall|j: int, k: int| 0 <= j < k < rest.len() implies (
            #[trigger] rest[j]).outbox_id != (#[trigger] rest[k]).outbox_id by {
                assert(pending[j].outbox_id != pending[k].outbox_id);
            }
            assert forall|k: int| 0 <= k < rest.len() implies (#[trigger] rest[k]).outbox_id
                != next.outbox_id by {
                assert(pending[k].outbox_id != pending[pending.len() - 1].outbox_id);
            }
        }
    }
    assert forall|k: int| 0 <= k < pending.len() implies flushed(d, pending).1.tracks(
        (#[trigger] pending[k]).outbox_id,
    ) by {
        lemma_flushed_tracks(d, pending, pending[k].outbox_id);
    }
}

/// Milliseconds that a disconnection waits at most for outstanding acknowledgements.
pub const DRAIN_LIMIT_MILLIS: u128 = 5000;

/// Milliseconds between two looks at the outstanding acknowledgements.
pub const DRAIN_POLL_MILLIS: u64 = 50;

/// Decides whether a disconnection waits: as long as messages are on their way, but not beyond the
/// limit. Returns the milliseconds until the next look.
pub fn drain_wait(ledger: &DeliveryLedger, elapsed_millis: u128) -> (r: Option<u64>)
    requires
        ledger.wf(),
    ensures
        r == if ledger@.count() > 0 && elapsed_millis < DRAIN_LIMIT_MILLIS {
            Some(DRAIN_POLL_MILLIS)
        } else {
            None
        },
        elapsed_millis < 5000 ==> (r == Some(50u64) <==> exists|id: i64| ledger@.tracks(id)),
        elapsed_millis >= 5000 ==> r is None,
{
    if ledger.is_idle() || elapsed_millis >= DRAIN_LIMIT_MILLIS {
        None
    } else {
        Some(DRAIN_POLL_MILLIS)
    }
}

/// An outbox entry is marked sent on no other event than the acknowledgement of the packet id that
/// it was sent under.
pub proof fn law_sent_means_acknowledged(
    user_id: Seq<char>,
    device_id: Seq<char>,
    deliveries: Deliveries,
    closing: bool,
    event: BrokerEvent,
    id: i64,
)
    ensures
        planned(user_id, device_id, deliveries, closing, event).contains(Act::MarkSent(id)) <==> (
        event matches BrokerEvent::PubAck(packet) && deliveries.confirms(packet) == Some(id)),
{
    let plan = planned(user_id, device_id, deliveries, closing, event);
    if event matches BrokerEvent::PubAck(packet) && deliveries.confirms(packet) == Some(id) {
        assert(plan[0] == Act::MarkSent(id));
    }
}

/// No event makes the ledger forget a message silently: what is on its way once less is marked sent
/// or marked failed, and none is added.
pub proof fn law_no_message_is_forgotten(
    user_id: Seq<char>,
    device_id: Seq<char>,
    deliveries: Deliveries,
    closing: bool,
    event: BrokerEvent,
    id: i64,
)
    requires
        deliveries.valid(),
    ensures
        deliveries_after(deliveries, event).valid(),
        deliveries_after(deliveries, event).copies(id) <= deliveries.copies(id)
            <= deliveries_after(deliveries, event).copies(id) + 1,
        deliveries_after(deliveries, event).copies(id) < deliveries.copies(id) ==> {
            let plan = planned(user_id, device_id, deliveries, closing, event);
            plan.contains(Act::MarkSent(id)) || (event matches BrokerEvent::TooLarge(e)
                && plan.contains(Act::MarkFailed(id, e@)))
        },
{
    let plan = planned(user_id, device_id, deliveries, closing, event);
    match event {
        BrokerEvent::Sent(packet) => law_sending(deliveries, packet, id),
        BrokerEvent::AwaitAck(packet) => law_holding_back(deliveries, packet, id),
        BrokerEvent::PubAck(packet) => {
            law_acknowledging(deliveries, packet, id);
            if deliveries.confirms(packet) == Some(id) {
                assert(plan[0] == Act::MarkSent(id));
            }
        },
        BrokerEvent::TooLarge(e) => {
            law_refusing(deliveries, id);
            if deliveries.gives_up() == Some(id) {
                assert(plan[0] == Act::MarkFailed(id, e@));
            }
        },
        _ => {},
    }
}

/// On a new connection the device subscribes if the broker kept no session for it. Then the
/// connection is announced, and the pending messages of both queues are taken up again.
pub proof fn law_queues_resume_on_connection(
    user_id: Seq<char>,
    device_id: Seq<char>,
    deliveries: Deliveries,
    closing: bool,
    session_present: bool,
)
    ensures
        ({
            let plan = planned(
                user_id,
                device_id,
                deliveries,
                closing,
                BrokerEvent::ConnAck { session_present },
            );
            let first = if session_present {
                0int
            } else {
                1int
            };
            &&& plan.len() == first + 3
            &&& !session_present ==> plan[0] == Act::Subscribe(
                inbox_prefix(user_id, device_id) + "#"@,
            )
            &&& plan[first] == Act::Emit(Signal::Connected)
            &&& plan[first + 1] == Act::ReplayInbox
            &&& plan[first + 2] == Act::FlushOutbox
        }),
{
}

/// A lost connection is announced. It is tried again three seconds later with a fresh password, unless
/// it was to end: then the worker stops. A message that was too large for it is marked failed with the
/// reason, and is the one that was next in line.
pub proof fn law_lost_connections_are_tried_again(
    user_id: Seq<char>,
    device_id: Seq<char>,
    deliveries: Deliveries,
    closing: bool,
    event: BrokerEvent,
)
    requires
        event is Lost || event is TooLarge || event is DisconnectSent,
    ensures
        ({
            let plan = planned(user_id, device_id, deliveries, closing, event);
            let ends = closing || event is DisconnectSent;
            let blamed = event is TooLarge && deliveries.queue.len() > 0;
            let first = if blamed {
                1int
            } else {
                0int
            };
            &&& blamed ==> plan[0] == Act::MarkFailed(deliveries.queue[0], event->TooLarge_0@)
            &&& plan[first] == Act::Emit(Signal::Disconnected)
            &&& ends ==> plan.len() == first + 2 && plan[first + 1] == Act::Stop
            &&& !ends ==> {
                &&& plan.len() == first + 3
                &&& plan[first + 1] == Act::Wait(3)
                &&& plan[first + 2] == Act::RefreshPassword
            }
        }),
{
}

/// What arrives is saved, what is acknowledged is marked sent, and on any other sign of life there is
/// nothing to do: the worker goes on, emits nothing and subscribes to nothing.
pub proof fn law_the_worker_does_no_more_than_asked(
    user_id: Seq<char>,
    device_id: Seq<char>,
    deliveries: Deliveries,
    closing: bool,
    event: BrokerEvent,
)
    ensures
        ({
            let plan = planned(user_id, device_id, deliveries, closing, event);
            match event {
                BrokerEvent::Publish { topic, payload } => plan == seq![
                    Act::SaveToInbox(topic@, payload@),
                ],
                BrokerEvent::PubAck(packet) => plan == if deliveries.awaiting.dom().contains(
                    packet,
                ) {
                    seq![Act::MarkSent(deliveries.awaiting[packet])]
                } else {
                    Seq::empty()
                },
                BrokerEvent::Sent(_) | BrokerEvent::AwaitAck(_) | BrokerEvent::Other => plan.len()
                    == 0,
                BrokerEvent::ConnAck { .. } => !plan.contains(Act::Stop) && !plan.contains(
                    Act::RefreshPassword,
                ) && !plan.contains(Act::Emit(Signal::Disconnected)),
                BrokerEvent::TooLarge(_) | BrokerEvent::Lost | BrokerEvent::DisconnectSent => {
                    !plan.contains(Act::Emit(Signal::Connected)) && !plan.contains(Act::ReplayInbox)
                        && !plan.contains(Act::FlushOutbox)
                },
            }
        }),
{
}

/// A message that was handed over is marked sent when it has gone out and the broker has acknowledged
/// it: the first in line goes out first, under the packet id that it is then acknowledged under. What
/// else is on its way stays so.
pub proof fn law_first_in_line_is_marked_sent(
    user_id: Seq<char>,
    device_id: Seq<char>,
    deliveries: Deliveries,
    closing: bool,
    packet: u16,
)
    requires
        deliveries.valid(),
        deliveries.queue.len() > 0,
        deliveries.blocked is None,
        !deliveries.awaiting.dom().contains(packet),
    ensures
        ({
            let out = deliveries_after(deliveries, BrokerEvent::Sent(packet));
            let done = deliveries_after(out, BrokerEvent::PubAck(packet));
            &&& planned(user_id, device_id, out, closing, BrokerEvent::PubAck(packet)) == seq![
                Act::MarkSent(deliveries.queue[0]),
            ]
            &&& done.queue == deliveries.queue.skip(1)
            &&& done.awaiting == deliveries.awaiting
            &&& done.blocked is None
        }),
{
    let out = deliveries_after(deliveries, BrokerEvent::Sent(packet));
    assert(out.awaiting.remove(packet) =~= deliveries.awaiting);
}

/// A message that waits for a packet id in use is marked sent at the second acknowledgement of that
/// packet id. The first is for the message that was sent under it before.
pub proof fn law_held_back_message_is_marked_sent_next(
    user_id: Seq<char>,
    device_id: Seq<char>,
    deliveries: Deliveries,
    closing: bool,
    packet: u16,
)
    requires
        deliveries.valid(),
        deliveries.queue.len() > 0,
        deliveries.blocked is None,
        deliveries.awaiting.dom().contains(packet),
    ensures
        ({
            let held = deliveries_after(deliveries, BrokerEvent::AwaitAck(packet));
            let freed = deliveries_after(held, BrokerEvent::PubAck(packet));
            &&& deliveries_after(held, BrokerEvent::Sent(packet)) == held
            &&& planned(user_id, device_id, held, closing, BrokerEvent::PubAck(packet)) == seq![
                Act::MarkSent(deliveries.awaiting[packet]),
            ]
            &&& planned(user_id, device_id, freed, closing, BrokerEvent::PubAck(packet)) == seq![
                Act::MarkSent(deliveries.queue[0]),
            ]
            &&& freed.queue == deliveries.queue.skip(1)
        }),
{
}

/// Nothing but what happens to messages of ours changes what is on its way: a connection that comes or
/// goes and messages of others leave it alone, so that what was not acknowledged stays on its way. A
/// message that is too large leaves, and no other.
pub proof fn law_connections_come_and_go(deliveries: Deliveries, event: BrokerEvent)
    ensures
        event is ConnAck || event is Publish || event is Lost || event is DisconnectSent
            || event is Other ==> deliveries_after(deliveries, event) == deliveries,
        event is TooLarge ==> {
            let after = deliveries_after(deliveries, event);
            &&& after.awaiting == deliveries.awaiting
            &&& after.blocked == deliveries.blocked
            &&& after.queue == if deliveries.queue.len() == 0 {
                deliveries.queue
            } else {
                deliveries.queue.skip(1)
            }
        },
{
}

/// The limits of a disconnection: it looks at the outstanding acknowledgements every fifty
/// milliseconds, for five seconds at most.
pub proof fn law_limits_of_a_disconnection()
    ensures
        DRAIN_LIMIT_MILLIS == 5000,
        DRAIN_POLL_MILLIS == 50,
        RECONNECT_SECONDS == 3,
        KEEP_ALIVE_SECONDS == 60,
{
}

/// The worker's actions mean what they say.
pub proof fn law_actions_mean_what_they_say(a: WorkerAction)
    ensures
        a@ is ReplayInbox <==> a is ReplayInbox,
        a@ is FlushOutbox <==> a is FlushOutbox,
        a@ is RefreshPassword <==> a is RefreshPassword,
        a@ is Stop <==> a is Stop,
        a matches WorkerAction::Subscribe(t) ==> a@ == Act::Subscribe(t@),
        a matches WorkerAction::SaveToInbox { topic, payload } ==> a@ == Act::SaveToInbox(
            topic@,
            payload@,
        ),
        a matches WorkerAction::MarkSent(id) ==> a@ == Act::MarkSent(id),
        a matches WorkerAction::MarkFailed(id, e) ==> a@ == Act::MarkFailed(id, e@),
        a matches WorkerAction::Wait(n) ==> a@ == Act::Wait(n),
        a matches WorkerAction::Emit(e) ==> match e {
            Event::Connected => a@ == Act::Emit(Signal::Connected),
            Event::Disconnected => a@ == Act::Emit(Signal::Disconnected),
            Event::MessageReceived { sender, plaintext } => a@ == Act::Emit(
                Signal::MessageReceived(sender@, plaintext@),
            ),
        },
{
}

}
