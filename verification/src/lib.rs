//! End-to-end encrypted messaging for the DeezChatz platform.
//!
//! This library holds everything that the SDK decides and computes. What it needs from outside, an
//! answer of a store, a reply of the server, an event of the broker, comes in as plain values, and
//! what is to be done goes out as plain values.
//!
//! - [`payload`]: the frames of text, voice and image messages
//! - [`crypto`], [`session`], [`signal`]: keys, signatures, pre-key bundles and ratchet sessions
//! - [`sending`], [`receive`]: the steps of sending and of decrypting a message
//! - [`oauth`], [`transport`], [`registration`]: requests to the REST API and device registration
//! - [`mqtt`], [`delivery`]: topics, credentials, the worker's decisions, and which messages still
//!   await the broker's acknowledgement
//! - [`client`], [`store`], [`error`]: configuration, queue entries and errors
//! - [`encoding`], [`text`]: encodings, the clock, and numbers in texts
//! - [`end_to_end`]: what holds from one client to the other
pub mod client;
pub mod crypto;
pub mod delivery;
pub mod encoding;
pub mod end_to_end;
pub mod error;
pub mod mqtt;
pub mod oauth;
pub mod payload;
pub mod receive;
pub mod registration;
pub mod sending;
pub mod session;
pub mod signal;
pub mod store;
pub mod text;
pub mod transport;

pub use client::{ClientConfig, SentMessage};
pub use error::SdkError;
pub use payload::{
    decode_payload, encode_image_payload, encode_text_payload, encode_voice_payload, DecodedPayload,
    PayloadError, PAYLOAD_TYPE_IMAGE, PAYLOAD_TYPE_TEXT, PAYLOAD_TYPE_VOICE,
};
pub use store::{InboxEntry, MessageStatus, OutboxEntry};
pub use transport::{Event, SyncBundleResponse};
