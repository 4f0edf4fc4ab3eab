use deezchatz_sdk::client::{connect_key, ClientConfig, ClientState};
use deezchatz_sdk::error::{VXEdDSAError, X3DHError};
use deezchatz_sdk::registration::DeviceIds;
use deezchatz_sdk::sending::SendStep;
use deezchatz_sdk::transport::{api_refusal, ApiCall, ApiClient};
use deezchatz_sdk::{PayloadError, SdkError};

fn set(s: &str) -> Option<String> {
    Some(s.to_string())
}

#[test]
fn presets() {
    let p = ClientConfig::production();
    assert_eq!(p.rest_url, "https://api.chatz.deez.in");
    assert_eq!(p.mqtt_url, "mqtt.deez.in");
    assert_eq!(p.mqtt_port, 8883);
    assert_eq!(p.opk_count, 100);
    assert!(p.use_tls);
    let d = ClientConfig::development();
    assert_eq!(d.rest_url, "http://localhost:3000");
    assert_eq!(d.mqtt_url, "localhost");
    assert_eq!(d.mqtt_port, 1883);
    assert_eq!(d.opk_count, 100);
    assert!(!d.use_tls);
}

#[test]
fn variables_default_to_production() {
    let c = ClientConfig::from_vars(None, None, None, None, None);
    let p = ClientConfig::production();
    assert_eq!(format!("{:?}", c), format!("{:?}", p));
}

#[test]
fn variables_are_read() {
    let c = ClientConfig::from_vars(set("http://x"), set("h"), set("1883"), set("+7"), None);
    assert_eq!(c.rest_url, "http://x");
    assert_eq!(c.mqtt_url, "h");
    assert_eq!(c.mqtt_port, 1883);
    assert_eq!(c.opk_count, 7);
    assert!(!c.use_tls);
    for bad in ["", "+", "-1", "65536", "12a", " 1"] {
        assert_eq!(ClientConfig::from_vars(None, None, set(bad), None, None).mqtt_port, 8883);
    }
    for bad in ["4294967296", "1.5"] {
        assert_eq!(ClientConfig::from_vars(None, None, None, set(bad), None).opk_count, 100);
    }
    let big = ClientConfig::from_vars(None, None, None, set("4294967295"), None);
    assert_eq!(big.opk_count, 4294967295);
}

#[test]
fn tls_variable() {
    let tls = |v: &str| ClientConfig::from_vars(None, None, set("1883"), None, set(v)).use_tls;
    for on in ["1", "true", "TRUE", "True"] {
        assert!(tls(on));
    }
    for off in ["0", "false", "FALSE", "False", "no", "", "yes", "trué", "01"] {
        assert!(!tls(off));
    }
    let tls_port = |v: &str| ClientConfig::from_vars(None, None, set("8883"), None, set(v)).use_tls;
    for on in ["1", "true", "no", "", "yes"] {
        assert!(tls_port(on));
    }
    for off in ["0", "false", "FALSE"] {
        assert!(!tls_port(off));
    }
}

#[test]
fn ids_of_a_client() {
    let mut c = ClientState::new(ClientConfig::development());
    assert_eq!(c.user_id(), None);
    assert_eq!(c.device_id(), None);
    assert_eq!(c.config().mqtt_port, 1883);
    c.registered(DeviceIds { user_id: "u".to_string(), device_id: "d".to_string() });
    assert_eq!(c.user_id(), Some("u"));
    assert_eq!(c.device_id(), Some("d"));
    assert_eq!(c.connected("v", "e", Ok(7)).unwrap(), 7);
    assert_eq!(c.user_id(), Some("v"));
    assert_eq!(c.device_id(), Some("e"));
}

#[test]
fn failed_connections_leave_no_ids() {
    let mut c = ClientState::new(ClientConfig::development());
    let failed: Result<(), SdkError> = c.connected("u", "d", connect_key(Ok(None)).map(|_| ()));
    assert_eq!(
        failed.unwrap_err().to_string(),
        "Storage error: Signed Pre-Key missing from keystore"
    );
    assert_eq!(c.user_id(), None);
    assert_eq!(c.device_id(), None);
    c.registered(DeviceIds { user_id: "u".to_string(), device_id: "d".to_string() });
    let failed: Result<(), SdkError> =
        c.connected("v", "e", Err(SdkError::Mqtt("no clock".to_string())));
    assert!(failed.is_err());
    assert_eq!(c.user_id(), Some("u"));
    assert_eq!(c.device_id(), Some("d"));
}

#[test]
fn sending_needs_ids() {
    let c = ClientState::new(ClientConfig::development());
    match c.begin_send("bob", &[1]) {
        SendStep::Failed(e) => assert_eq!(
            e.to_string(),
            "Invalid operation: User ID not initialized (call connect first)"
        ),
        _ => panic!("expected a failure"),
    }
    match deezchatz_sdk::sending::begin_send(Some("u"), None, "bob", &[1]) {
        SendStep::Failed(e) => assert_eq!(
            e.to_string(),
            "Invalid operation: Device ID not initialized (call connect first)"
        ),
        _ => panic!("expected a failure"),
    }
}

#[test]
fn key_for_the_connection() {
    assert_eq!(connect_key(Ok(Some(([3u8; 32], [5u8; 33])))).unwrap(), [3u8; 32]);
    assert_eq!(
        connect_key(Ok(None)).unwrap_err().to_string(),
        "Storage error: Signed Pre-Key missing from keystore"
    );
    let failed = Err(SdkError::Storage("down".to_string()));
    assert_eq!(connect_key(failed).unwrap_err().to_string(), "Storage error: down");
}

#[test]
fn profile_lookup() {
    let api = ApiClient::new("http://h".to_string());
    let mut c = ClientState::new(ClientConfig::development());
    match c.begin_sync("bob") {
        Err(e) => assert_eq!(e.to_string(), "Invalid operation: User ID not set"),
        Ok(_) => panic!("expected a failure"),
    }
    c.connected("alice", "d", Ok(())).unwrap();
    let missing = c.begin_sync("bob").unwrap().resume(&api, Ok(None)).err().unwrap();
    assert_eq!(missing.to_string(), "Storage error: Identity key missing from keystore");
    let pair = libsignal_dezire::vxeddsa::gen_keypair();
    let query = c.begin_sync("bob/1").unwrap();
    let request = query.resume_at(&api, Ok(Some((pair.secret, pair.public))), Ok(77)).ok().unwrap();
    assert_eq!(request.url, "http://h/bundle/sync/bob%2F1");
    assert_eq!(request.headers[0], ("X-User-Id".to_string(), "alice".to_string()));
    assert_eq!(request.headers[1], ("X-Timestamp".to_string(), "77".to_string()));
    let failed = Err(SdkError::Storage("down".to_string()));
    assert!(c.begin_sync("bob").unwrap().resume(&api, failed).is_err());
}

#[test]
fn refusals_of_the_server() {
    let text = |call| api_refusal(call, "why").to_string();
    assert_eq!(
        text(ApiCall::RegisterGoogleIdToken),
        "API error: Google ID token registration failed: why"
    );
    assert_eq!(
        text(ApiCall::RegisterGooglePkce),
        "API error: Google PKCE registration failed: why"
    );
    assert_eq!(text(ApiCall::RegisterDevice), "API error: Device registration failed: why");
    assert_eq!(text(ApiCall::GetBundle), "API error: Failed to fetch bundle: why");
    assert_eq!(text(ApiCall::GetSyncBundle), "API error: Failed to fetch sync bundle: why");
}

#[test]
fn messages_of_errors() {
    assert_eq!(SdkError::Http("x".to_string()).to_string(), "HTTP error: x");
    assert_eq!(SdkError::from(VXEdDSAError::InvalidScalar).to_string(), "VXEdDSA error: InvalidScalar");
    assert_eq!(SdkError::from(X3DHError::InvalidSignature).to_string(), "X3DH error: InvalidSignature");
    assert_eq!(SdkError::from(X3DHError::InvalidKey).to_string(), "X3DH error: InvalidKey");
    assert_eq!(
        SdkError::from(X3DHError::MissingOneTimeKey).to_string(),
        "X3DH error: MissingOneTimeKey"
    );
    assert_eq!(SdkError::from(X3DHError::DecodeFailed).to_string(), "X3DH error: DecodeFailed");
    assert_eq!(
        SdkError::from(PayloadError::EmptyPayload).to_string(),
        "Payload error: Cannot decode empty message payload"
    );
    assert_eq!(
        SdkError::session_serialize("s").to_string(),
        "Storage error: Session serialize error: s"
    );
    assert_eq!(
        SdkError::payload_serialize("p").to_string(),
        "Crypto error: Payload serialize error: p"
    );
}
