use std::time::{SystemTime, UNIX_EPOCH};

use base64::engine::general_purpose::STANDARD;
use base64::Engine;
use deezchatz_sdk::delivery::DeliveryLedger;
use deezchatz_sdk::mqtt::{
    conclude_message, connection_plan, connection_plan_with, drain_wait, flush,
    generate_mqtt_password, message_topic, mqtt_password_at, pending, plan, publish_refused,
    replay, route_message, saved, sender_of_topic, subscription_topic, BrokerEvent, InboxMark,
    Route, WorkerAction,
};
use deezchatz_sdk::{Event, InboxEntry, MessageStatus, OutboxEntry, SdkError};
use libsignal_dezire::vxeddsa::{gen_keypair, vxeddsa_verify};
use rumqttc::{MqttOptions, Transport};

#[test]
fn mqtt_test_generate_mqtt_password() {
    let keypair = gen_keypair();
    let user_id = "f47ac10b-58cc-4372-a567-0e02b2c3d479";
    let password = generate_mqtt_password(user_id, &keypair.secret).expect("failed to generate password");
    // 128 (signature base64) + 44 (vrf base64) + 10 (unix timestamp) = 182 characters
    assert_eq!(password.len(), 182);

    let sig_b64 = &password[..128];
    let vrf_b64 = &password[128..172];
    let ts_str = &password[172..];

    let ts: u64 = ts_str.parse().expect("timestamp should be an integer");
    let now = SystemTime::now().duration_since(UNIX_EPOCH).unwrap().as_secs();
    assert!(now.abs_diff(ts) <= 2);

    // Verify that signature is valid with the public key

    let sig_bytes = STANDARD.decode(sig_b64).expect("valid sig base64");
    let vrf_bytes = STANDARD.decode(vrf_b64).expect("valid vrf base64");
    let payload = format!("{}{}", user_id, ts_str);

    let mut sig_arr = [0u8; 96];
    sig_arr.copy_from_slice(&sig_bytes);
    let verified_vrf = vxeddsa_verify(&keypair.public, payload.as_bytes(), &sig_arr).expect("signature should verify");
    assert_eq!(verified_vrf.as_slice(), vrf_bytes.as_slice());
}

#[test]
fn transport_test_generate_mqtt_password() {
    let keypair = gen_keypair();
    let user_id = "f47ac10b-58cc-4372-a567-0e02b2c3d479";
    let password =
        generate_mqtt_password(user_id, &keypair.secret).expect("failed to generate password");
    assert_eq!(password.len(), 182);

    let sig_b64 = &password[..128];
    let vrf_b64 = &password[128..172];
    let ts_str = &password[172..];

    let ts: u64 = ts_str.parse().expect("timestamp should be an integer");
    let now = SystemTime::now()
        .duration_since(UNIX_EPOCH)
        .unwrap()
        .as_secs();
    assert!(now.abs_diff(ts) <= 2);


    let sig_bytes = STANDARD.decode(sig_b64).expect("valid sig base64");
    let vrf_bytes = STANDARD.decode(vrf_b64).expect("valid vrf base64");
    let payload = format!("{}{}", user_id, ts_str);

    let mut sig_arr = [0u8; 96];
    sig_arr.copy_from_slice(&sig_bytes);
    let verified_vrf = vxeddsa_verify(&keypair.public, payload.as_bytes(), &sig_arr)
        .expect("signature should verify");
    assert_eq!(verified_vrf.as_slice(), vrf_bytes.as_slice());
}

#[test]
fn mqtt_test_mqtt_transport_tls() {
    let mut options = MqttOptions::new("test-device", "mqtt.deez.in", 8883);
    options.set_transport(Transport::tls_with_default_config());
    match options.transport() {
        Transport::Tls(_) => {}
        _ => panic!("Expected Transport::Tls"),
    }
}

#[test]
fn transport_test_mqtt_transport_tls() {
    let mut options = MqttOptions::new("test-device", "mqtt.deez.in", 8883);
    options.set_transport(Transport::tls_with_default_config());
    match options.transport() {
        Transport::Tls(_) => {}
        _ => panic!("Expected Transport::Tls"),
    }
}

#[test]
fn password_at_a_fixed_time() {
    let pair = gen_keypair();
    let password = mqtt_password_at("alice", &pair.secret, Ok(1726030464)).unwrap();
    assert!(password.ends_with("1726030464"));
    let mut signature = [0u8; 96];
    signature.copy_from_slice(&STANDARD.decode(&password[..128]).unwrap());
    let vrf = vxeddsa_verify(&pair.public, b"alice1726030464", &signature).unwrap();
    assert_eq!(STANDARD.encode(vrf), password[128..172]);
}

#[test]
fn password_without_a_clock() {
    let err = mqtt_password_at("alice", &[7u8; 32], Err("no clock".to_string())).unwrap_err();
    assert!(matches!(err, SdkError::Mqtt(ref s) if s == "no clock"));
    assert_eq!(err.to_string(), "MQTT error: no clock");
}

#[test]
fn connection_options() {
    let p = connection_plan("mqtt.deez.in", 8883, true, "alice", "phone", &[9u8; 32]).unwrap();
    assert_eq!(p.client_id, "phone");
    assert_eq!(p.host, "mqtt.deez.in");
    assert_eq!(p.port, 8883);
    assert_eq!(p.username, "alice");
    assert_eq!(p.password.len(), 182);
    assert_eq!(p.keep_alive_seconds, 60);
    assert!(!p.clean_session);
    assert!(p.use_tls);
    let failed = Err(SdkError::Mqtt("x".to_string()));
    assert!(connection_plan_with("h", 1, false, "u", "d", failed).is_err());
}

#[test]
fn topics() {
    assert_eq!(message_topic("bob", "b1", "alice", "a1"), "/deezchatz/bob/b1/alice/a1");
    assert_eq!(subscription_topic("bob", "b1"), "/deezchatz/bob/b1/#");
    let alice = Some(("alice".to_string(), "a1".to_string()));
    assert_eq!(sender_of_topic("/deezchatz/bob/b1/alice/a1"), alice);
    assert_eq!(sender_of_topic("/deezchatz/bob/b1/alice/a1/more"), alice);
    assert_eq!(sender_of_topic("/deezchatz/bob/b1/alice"), None);
    assert_eq!(sender_of_topic(""), None);
    assert_eq!(sender_of_topic("/////"), Some((String::new(), String::new())));
}

#[test]
fn routing_of_messages() {
    let arrived = |topic: &str, reply| route_message(saved(topic.to_string(), vec![1, 2], reply));
    let down = || Err(SdkError::Storage("down".to_string()));
    match arrived("/deezchatz/bob/b1/alice/a1", Ok(3)) {
        Route::Decrypt(m) => {
            assert_eq!(m.sender_id, "alice");
            assert_eq!(m.sender_device_id, "a1");
            assert_eq!(m.payload, vec![1, 2]);
            assert_eq!(m.inbox_id, Some(3));
        }
        other => panic!("{:?}", other),
    }
    match arrived("/deezchatz/bob/b1/alice/a1", down()) {
        Route::Decrypt(m) => assert_eq!(m.inbox_id, None),
        other => panic!("{:?}", other),
    }
    match arrived("short", Ok(3)) {
        Route::Reject(Some(InboxMark::Failed(3, e))) => assert_eq!(e, "Invalid topic structure"),
        other => panic!("{:?}", other),
    }
    assert!(matches!(arrived("short", down()), Route::Reject(None)));
}

#[test]
fn pending_entries_are_routed() {
    let entry = InboxEntry {
        id: 8,
        topic: "/deezchatz/bob/b1/alice/a1".to_string(),
        payload: vec![7],
        received_at: 0,
        status: MessageStatus::Pending,
        retry_count: 2,
        processed_at: None,
    };
    match route_message(pending(entry)) {
        Route::Decrypt(m) => {
            assert_eq!(m.sender_id, "alice");
            assert_eq!(m.payload, vec![7]);
            assert_eq!(m.inbox_id, Some(8));
        }
        other => panic!("{:?}", other),
    }
}

#[test]
fn inbox_is_replayed_in_order() {
    let entry = |id: i64, sender: &str| InboxEntry {
        id,
        topic: format!("/deezchatz/bob/b1/{}/d", sender),
        payload: vec![id as u8],
        received_at: 0,
        status: MessageStatus::Pending,
        retry_count: 0,
        processed_at: None,
    };
    let entries = vec![entry(4, "alice"), entry(2, "carol"), entry(9, "alice")];
    let routed: Vec<_> = replay(entries)
        .into_iter()
        .map(|intake| match route_message(intake) {
            Route::Decrypt(m) => (m.inbox_id, m.sender_id, m.payload),
            other => panic!("{:?}", other),
        })
        .collect();
    assert_eq!(
        routed,
        vec![
            (Some(4), "alice".to_string(), vec![4]),
            (Some(2), "carol".to_string(), vec![2]),
            (Some(9), "alice".to_string(), vec![9])
        ]
    );
    assert!(replay(vec![]).is_empty());
}

#[test]
fn outbox_is_flushed_in_order() {
    let entry = |id: i64| OutboxEntry {
        id,
        recipient_id: "bob".to_string(),
        message_id: "m".to_string(),
        topic: format!("topic {}", id),
        payload: vec![id as u8],
        created_at: 0,
        status: MessageStatus::Pending,
        retry_count: 0,
        sent_at: None,
    };
    let mut ledger = DeliveryLedger::new();
    ledger.accept(5);
    let entries = vec![entry(7), entry(5), entry(3), entry(7)];
    let out: Vec<_> = flush(&mut ledger, &entries)
        .into_iter()
        .map(|h| (h.outbox_id, h.topic, h.payload))
        .collect();
    assert_eq!(
        out,
        vec![(7, "topic 7".to_string(), vec![7]), (3, "topic 3".to_string(), vec![3])]
    );
    // All are on their way now, in the order in which they were handed over.
    assert!(flush(&mut ledger, &entries).is_empty());
    for (packet, id) in [(1, 5), (2, 7), (3, 3)] {
        ledger.on_sent(packet);
        assert_eq!(ledger.on_ack(packet), Some(id));
    }
    assert!(ledger.is_idle());
}

#[test]
fn conclusions_of_decryption() {
    let good = conclude_message("alice".to_string(), Some(5), Ok(vec![1, 2]));
    assert!(matches!(good.mark, Some(InboxMark::Processed(5))));
    match good.event {
        Some(Event::MessageReceived { sender, plaintext }) => {
            assert_eq!(sender, "alice");
            assert_eq!(plaintext, vec![1, 2]);
        }
        other => panic!("{:?}", other),
    }
    let unsaved = conclude_message("alice".to_string(), None, Ok(vec![]));
    assert!(unsaved.mark.is_none());
    assert!(unsaved.event.is_some());

    let bad = conclude_message("alice".to_string(), Some(5), Err("Crypto(\"x\")".to_string()));
    match bad.mark {
        Some(InboxMark::Failed(5, e)) => assert_eq!(e, "Decryption error: Crypto(\"x\")"),
        other => panic!("{:?}", other),
    }
    assert!(bad.event.is_none());
}

fn names(actions: &[WorkerAction]) -> Vec<String> {
    actions.iter().map(|a| format!("{:?}", a)).collect()
}

#[test]
fn worker_on_connection() {
    let mut ledger = DeliveryLedger::new();
    let fresh = plan("u", "d", &mut ledger, false, BrokerEvent::ConnAck { session_present: false });
    assert_eq!(
        names(&fresh),
        vec![
            "Subscribe(\"/deezchatz/u/d/#\")",
            "Emit(Connected)",
            "ReplayInbox",
            "FlushOutbox"
        ]
    );
    let kept = plan("u", "d", &mut ledger, false, BrokerEvent::ConnAck { session_present: true });
    assert_eq!(names(&kept), vec!["Emit(Connected)", "ReplayInbox", "FlushOutbox"]);
}

#[test]
fn worker_on_messages_and_losses() {
    let mut ledger = DeliveryLedger::new();
    let event = BrokerEvent::Publish { topic: "t".to_string(), payload: vec![1] };
    assert_eq!(
        names(&plan("u", "d", &mut ledger, false, event)),
        vec!["SaveToInbox { topic: \"t\", payload: [1] }"]
    );
    assert_eq!(
        names(&plan("u", "d", &mut ledger, false, BrokerEvent::Lost)),
        vec!["Emit(Disconnected)", "Wait(3)", "RefreshPassword"]
    );
    assert!(plan("u", "d", &mut ledger, false, BrokerEvent::Other).is_empty());
    assert_eq!(
        names(&plan("u", "d", &mut ledger, true, BrokerEvent::Lost)),
        vec!["Emit(Disconnected)", "Stop"]
    );
    assert_eq!(
        names(&plan("u", "d", &mut ledger, false, BrokerEvent::DisconnectSent)),
        vec!["Emit(Disconnected)", "Stop"]
    );
}

#[test]
fn worker_marks_sent_on_acknowledgement_only() {
    let mut ledger = DeliveryLedger::new();
    ledger.accept(10);
    assert!(ledger.accept_pending(11));
    assert!(!ledger.accept_pending(10));
    assert!(plan("u", "d", &mut ledger, false, BrokerEvent::Sent(1)).is_empty());
    assert!(plan("u", "d", &mut ledger, false, BrokerEvent::Sent(2)).is_empty());
    assert_eq!(names(&plan("u", "d", &mut ledger, false, BrokerEvent::PubAck(2))), vec!["MarkSent(11)"]);
    assert!(plan("u", "d", &mut ledger, false, BrokerEvent::PubAck(2)).is_empty());
    // The connection breaks and the message goes out again under its packet id.
    plan("u", "d", &mut ledger, false, BrokerEvent::Lost);
    assert!(plan("u", "d", &mut ledger, false, BrokerEvent::Sent(1)).is_empty());
    assert_eq!(names(&plan("u", "d", &mut ledger, false, BrokerEvent::PubAck(1))), vec!["MarkSent(10)"]);
    assert!(ledger.is_idle());
}

#[test]
fn worker_gives_up_on_oversized_messages() {
    let mut ledger = DeliveryLedger::new();
    ledger.accept(10);
    ledger.accept(11);
    let actions = plan("u", "d", &mut ledger, false, BrokerEvent::TooLarge("big".to_string()));
    assert_eq!(
        names(&actions),
        vec!["MarkFailed(10, \"big\")", "Emit(Disconnected)", "Wait(3)", "RefreshPassword"]
    );
    assert!(!ledger.is_tracked(10));
    assert!(ledger.is_tracked(11));
}

#[test]
fn held_back_message_is_confirmed_second() {
    let mut ledger = DeliveryLedger::new();
    ledger.accept(1);
    plan("u", "d", &mut ledger, false, BrokerEvent::Sent(1));
    ledger.accept(2);
    plan("u", "d", &mut ledger, false, BrokerEvent::AwaitAck(1));
    // The held back message is written out as the acknowledgement comes in.
    plan("u", "d", &mut ledger, false, BrokerEvent::Sent(1));
    assert_eq!(names(&plan("u", "d", &mut ledger, false, BrokerEvent::PubAck(1))), vec!["MarkSent(1)"]);
    assert!(ledger.is_tracked(2));
    assert_eq!(names(&plan("u", "d", &mut ledger, false, BrokerEvent::PubAck(1))), vec!["MarkSent(2)"]);
}

#[test]
fn refused_publication_is_withdrawn() {
    let mut ledger = DeliveryLedger::new();
    ledger.accept(1);
    ledger.accept(2);
    let (action, err) = publish_refused(&mut ledger, 1, "closed".to_string());
    assert_eq!(names(&[action]), vec!["MarkFailed(1, \"closed\")"]);
    assert_eq!(err.to_string(), "MQTT error: closed");
    assert!(!ledger.is_tracked(1));
    ledger.on_sent(4);
    assert_eq!(ledger.on_ack(4), Some(2));
}

#[test]
fn repeated_messages_are_confirmed_each() {
    let mut ledger = DeliveryLedger::new();
    ledger.accept(1);
    ledger.accept(2);
    ledger.accept(1);
    publish_refused(&mut ledger, 1, "closed".to_string());
    ledger.accept(1);
    for packet in 1..4 {
        ledger.on_sent(packet);
    }
    assert_eq!(ledger.on_ack(1), Some(1));
    assert!(ledger.is_tracked(1));
    assert_eq!(ledger.on_ack(2), Some(2));
    assert_eq!(ledger.on_ack(3), Some(1));
    assert!(ledger.is_idle());
}

#[test]
fn disconnection_waits_for_acknowledgements() {
    let mut ledger = DeliveryLedger::new();
    assert_eq!(drain_wait(&ledger, 0), None);
    ledger.accept(1);
    assert_eq!(drain_wait(&ledger, 0), Some(50));
    assert_eq!(drain_wait(&ledger, 4999), Some(50));
    assert_eq!(drain_wait(&ledger, 5000), None);
}
