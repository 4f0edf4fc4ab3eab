//! Entries of the persistent message queues.
use vstd::prelude::*;

verus! {

/// Where a queued message stands.
#[derive(Clone, Copy, Debug, PartialEq, Eq, Structural)]
pub enum MessageStatus {
    Pending,
    Processed,
    Sent,
    Failed,
}

/// A persistent entry in the raw incoming MQTT inbox.
///
/// Incoming ciphertexts are saved here before any attempt at decryption.
#[derive(Clone, Debug)]
pub struct InboxEntry {
    pub id: i64,
    pub topic: String,
    pub payload: Vec<u8>,
    pub received_at: u64,
    pub status: MessageStatus,
    pub retry_count: u32,
    pub processed_at: Option<u64>,
}

/// A persistent entry in the outgoing MQTT outbox.
///
/// Outbound messages are saved here before any attempt to publish them.
#[derive(Clone, Debug)]
pub struct OutboxEntry {
    pub id: i64,
    pub recipient_id: String,
    pub message_id: String,
    pub topic: String,
    pub payload: Vec<u8>,
    pub created_at: u64,
    pub status: MessageStatus,
    pub retry_count: u32,
    pub sent_at: Option<u64>,
}

}
