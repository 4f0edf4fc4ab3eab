//! Sending of messages.
//!
//! Like decryption, sending is a chain of steps, each of which says what it needs and takes the
//! answer. A chain starts with [`begin_send`] and ends with [`Publication::resume`] or in
//! [`SendStep::Failed`]. The session is saved before the message is enqueued, and the message is
//! enqueued before it is published.
use vstd::prelude::*;
use vstd::string::*;
use vstd::utf8::*;

use crate::client::SentMessage;
use crate::crypto::{auth_attested, auth_texts, bundle_of, bundle_view, parse_prekey_bundle};
use crate::encoding::{b64_decoded, is_uuid_v4, millis_at, random_uuid, seconds_at, seconds_view};
use crate::encoding::{unix_seconds, url_encoded};
use crate::error::{message, Failure, SdkError, X3DHError};
use crate::mqtt::{inbox_prefix, law_messages_reach_the_subscription, law_topic_names_the_sender};
use crate::mqtt::{message_topic, topic_sender, topic_text};
use crate::payload::{decoded, encode_image_payload, framed, law_decode_undoes_encode};
use crate::payload::{Fault, Message};
use crate::receive::{key_reply, pair_view, saved_view, session_reply, settled, Invite, Stage};
use crate::session::{encrypt_message, encrypted, encryption_view, encrypts_to, opening};
use crate::session::{optional_contact, optional_session, plaintext_view};
use crate::session::{ActiveSession, Contact, EncryptedPayload, Envelope, Session};
use crate::signal::{all_readable, bundle_keys, Bundle, PreKeyBundle, SIGNED_PRE_KEY_ID};
use crate::transport::{checks_out, law_headers_can_be_checked, request_to, request_view};
use crate::transport::{law_request_goes_out_with_credentials, value_under, ApiClient};
use crate::transport::{ApiRequest, BundleResponse};

verus! {

// ---------------------------------------------------------------------------
// Steps
// ---------------------------------------------------------------------------

/// A message that is to be sent.
pub struct Draft {
    pub user_id: String,
    pub device_id: String,
    pub recipient: String,
    pub payload: Vec<u8>,
}

/// The contents of a [`Draft`].
#[verifier::ext_equal]
pub struct Letter {
    pub user_id: Seq<char>,
    pub device_id: Seq<char>,
    pub recipient: Seq<char>,
    pub payload: Seq<u8>,
}

impl View for Draft {
    type V = Letter;

    open spec fn view(&self) -> Letter {
        Letter {
            user_id: self.user_id@,
            device_id: self.device_id@,
            recipient: self.recipient@,
            payload: self.payload@,
        }
    }
}

/// Needs the local identity key.
pub struct AwaitSenderKey {
    pub draft: Draft,
}

/// Needs the session with the recipient.
pub struct AwaitContactSession {
    pub draft: Draft,
    pub id_key: ([u8; 32], [u8; 33]),
}

/// Needs the signed pre-key under `key_id`, to authenticate a request.
pub struct AwaitAuthKey {
    pub draft: Draft,
    pub id_key: ([u8; 32], [u8; 33]),
    pub key_id: u32,
}

/// Needs the recipient's pre-key bundle. The request is signed with `signing_key`.
pub struct AwaitBundle {
    pub draft: Draft,
    pub id_key: ([u8; 32], [u8; 33]),
    pub signing_key: [u8; 32],
}

/// Has all that encryption takes.
pub struct ReadyToSeal {
    pub draft: Draft,
    pub id_key: ([u8; 32], [u8; 33]),
    pub existing: Option<ActiveSession>,
    pub contact: Option<(String, String, PreKeyBundle)>,
}

/// An encrypted message and the session that it advanced.
pub struct Parcel {
    pub user_id: String,
    pub device_id: String,
    pub recipient: String,
    pub envelope: EncryptedPayload,
    pub session: ActiveSession,
}

/// The contents of a [`Parcel`].
#[verifier::ext_equal]
pub struct Package {
    pub user_id: Seq<char>,
    pub device_id: Seq<char>,
    pub recipient: Seq<char>,
    pub envelope: Envelope,
    pub session: Session,
}

impl View for Parcel {
    type V = Package;

    open spec fn view(&self) -> Package {
        Package {
            user_id: self.user_id@,
            device_id: self.device_id@,
            recipient: self.recipient@,
            envelope: self.envelope@,
            session: self.session@,
        }
    }
}

/// Needs the session saved under the identifier that the message was addressed to.
pub struct AwaitSessionSave {
    pub parcel: Parcel,
}

/// Needs the session saved under the recipient's user id as well. Whether that works does not
/// matter.
pub struct AwaitAliasSave {
    pub parcel: Parcel,
}

/// Needs the envelope enqueued in the outbox.
pub struct AwaitEnqueue {
    pub recipient_id: String,
    pub message_id: String,
    pub topic: String,
    pub envelope: EncryptedPayload,
}

/// Is to be published. The outbox has the message, whether that works or not.
pub struct Publication {
    pub outbox_id: i64,
    pub topic: String,
    pub message_id: String,
    pub recipient_id: String,
}

/// A step of sending a message.
pub enum SendStep {
    IdentityKey(AwaitSenderKey),
    Session(AwaitContactSession),
    SignedPreKey(AwaitAuthKey),
    Bundle(AwaitBundle),
    Seal(ReadyToSeal),
    SaveSession(AwaitSessionSave),
    SaveAlias(AwaitAliasSave),
    Enqueue(AwaitEnqueue),
    Publish(Publication),
    Failed(SdkError),
}

/// The contents of a [`SendStep`].
#[verifier::ext_equal]
pub enum SendStage {
    IdentityKey(Letter),
    Session(Letter, (Seq<u8>, Seq<u8>)),
    SignedPreKey(Letter, (Seq<u8>, Seq<u8>), u32),
    Bundle(Letter, (Seq<u8>, Seq<u8>), Seq<u8>),
    Seal(Letter, (Seq<u8>, Seq<u8>), Option<Session>, Option<Contact>),
    SaveSession(Package),
    SaveAlias(Package),
    /// Recipient, message id, topic and envelope.
    Enqueue(Seq<char>, Seq<char>, Seq<char>, Envelope),
    /// Outbox id, topic, message id and recipient.
    Publish(i64, Seq<char>, Seq<char>, Seq<char>),
    Failed(Failure),
}

impl View for SendStep {
    type V = SendStage;

    open spec fn view(&self) -> SendStage {
        match self {
            SendStep::IdentityKey(s) => SendStage::IdentityKey(s.draft@),
            SendStep::Session(s) => SendStage::Session(s.draft@, pair_view(s.id_key)),
            SendStep::SignedPreKey(s) => SendStage::SignedPreKey(
                s.draft@,
                pair_view(s.id_key),
                s.key_id,
            ),
            SendStep::Bundle(s) => SendStage::Bundle(
                s.draft@,
                pair_view(s.id_key),
                s.signing_key@,
            ),
            SendStep::Seal(s) => SendStage::Seal(
                s.draft@,
                pair_view(s.id_key),
                optional_session(s.existing),
                optional_contact(s.contact),
            ),
            SendStep::SaveSession(s) => SendStage::SaveSession(s.parcel@),
            SendStep::SaveAlias(s) => SendStage::SaveAlias(s.parcel@),
            SendStep::Enqueue(s) => SendStage::Enqueue(
                s.recipient_id@,
                s.message_id@,
                s.topic@,
                s.envelope@,
            ),
            SendStep::Publish(s) => SendStage::Publish(
                s.outbox_id,
                s.topic@,
                s.message_id@,
                s.recipient_id@,
            ),
            SendStep::Failed(e) => SendStage::Failed(e@),
        }
    }
}

// ---------------------------------------------------------------------------
// Gathering
// ---------------------------------------------------------------------------

/// The first step of sending `payload` to `recipient`.
pub open spec fn send_begun(
    user_id: Option<Seq<char>>,
    device_id: Option<Seq<char>>,
    recipient: Seq<char>,
    payload: Seq<u8>,
) -> SendStage {
    match (user_id, device_id) {
        (None, _) => SendStage::Failed(
            Failure::InvalidOperation("User ID not initialized (call connect first)"@),
        ),
        (_, None) => SendStage::Failed(
            Failure::InvalidOperation("Device ID not initialized (call connect first)"@),
        ),
        (Some(user_id), Some(device_id)) => SendStage::IdentityKey(
            Letter { user_id, device_id, recipient, payload },
        ),
    }
}

/// The contents of a string slice that may be absent.
pub open spec fn optional_str(s: Option<&str>) -> Option<Seq<char>> {
    match s {
        Some(s) => Some(s@),
        None => None,
    }
}

/// Starts to send `payload` to `recipient`, as the given user and device.
pub fn begin_send(
    user_id: Option<&str>,
    device_id: Option<&str>,
    recipient: &str,
    payload: &[u8],
) -> (r: SendStep)
    ensures
        r@ == send_begun(optional_str(user_id), optional_str(device_id), recipient@, payload@),
        user_id is Some && device_id is Some ==> (r matches SendStep::IdentityKey(s) && {
            &&& s.draft.user_id@ == user_id->0@
            &&& s.draft.device_id@ == device_id->0@
            &&& s.draft.recipient@ == recipient@
            &&& s.draft.payload@ == payload@
        }),
        user_id is None || device_id is None ==> r is Failed,
{
    let user_id = match user_id {
        Some(u) => u,
        None => return SendStep::Failed(
            SdkError::InvalidOperation("User ID not initialized (call connect first)".to_owned()),
        ),
    };
    let device_id = match device_id {
        Some(d) => d,
        None => return SendStep::Failed(
            SdkError::InvalidOperation("Device ID not initialized (call connect first)".to_owned()),
        ),
    };
    let draft = Draft {
        user_id: user_id.to_owned(),
        device_id: device_id.to_owned(),
        recipient: recipient.to_owned(),
        payload: vstd::slice::slice_to_vec(payload),
    };
    SendStep::IdentityKey(AwaitSenderKey { draft })
}

impl AwaitSenderKey {
    /// The step after the store was asked for the identity key.
    pub open spec fn next(self, reply: Result<Option<(Seq<u8>, Seq<u8>)>, Failure>) -> SendStage {
        match reply {
            Err(e) => SendStage::Failed(e),
            Ok(None) => SendStage::Failed(
                Failure::Storage("Identity key missing from keystore"@),
            ),
            Ok(Some(k)) => SendStage::Session(self.draft@, k),
        }
    }

    /// Takes the identity key.
    pub fn resume(self, reply: Result<Option<([u8; 32], [u8; 33])>, SdkError>) -> (r: SendStep)
        ensures
            r@ == self.next(key_reply(reply)),
            reply matches Ok(Some(k)) ==> r matches SendStep::Session(s) && s.draft == self.draft
                && s.id_key == k,
            reply matches Err(e) ==> r == SendStep::Failed(e),
            reply matches Ok(None) ==> r is Failed,
    {
        match reply {
            Err(e) => SendStep::Failed(e),
            Ok(None) => SendStep::Failed(
                SdkError::Storage("Identity key missing from keystore".to_owned()),
            ),
            Ok(Some(id_key)) => SendStep::Session(
                AwaitContactSession { draft: self.draft, id_key },
            ),
        }
    }
}

impl AwaitContactSession {
    /// The step after the store was asked for the session. Without one, a bundle has to be fetched.
    pub open spec fn next(
        self,
        reply: Result<Option<Result<Session, Seq<char>>>, Failure>,
    ) -> SendStage {
        match reply {
            Err(e) => SendStage::Failed(e),
            Ok(Some(Err(e))) => SendStage::Failed(
                Failure::Storage("Session deserialize error: "@ + e),
            ),
            Ok(Some(Ok(s))) => SendStage::Seal(
                self.draft@,
                pair_view(self.id_key),
                Some(s),
                None,
            ),
            Ok(None) => SendStage::SignedPreKey(
                self.draft@,
                pair_view(self.id_key),
                SIGNED_PRE_KEY_ID,
            ),
        }
    }

    /// Takes the session.
    pub fn resume(self, reply: Result<Option<Result<ActiveSession, String>>, SdkError>) -> (r:
        SendStep)
        ensures
            r@ == self.next(session_reply(reply)),
            reply matches Ok(Some(Ok(session))) ==> r matches SendStep::Seal(s) && s.draft
                == self.draft && s.id_key == self.id_key && s.existing == Some(session)
                && s.contact is None,
            reply matches Ok(None) ==> r matches SendStep::SignedPreKey(s) && s.draft == self.draft
                && s.id_key == self.id_key && s.key_id == SIGNED_PRE_KEY_ID,
            reply matches Ok(Some(Err(_))) ==> r is Failed,
            reply matches Err(e) ==> r == SendStep::Failed(e),
    {
        match reply {
            Err(e) => SendStep::Failed(e),
            Ok(Some(Err(e))) => SendStep::Failed(
                SdkError::Storage(message("Session deserialize error: ", e.as_str())),
            ),
            Ok(Some(Ok(session))) => SendStep::Seal(
                ReadyToSeal {
                    draft: self.draft,
                    id_key: self.id_key,
                    existing: Some(session),
                    contact: None,
                },
            ),
            Ok(None) => SendStep::SignedPreKey(
                AwaitAuthKey {
                    draft: self.draft,
                    id_key: self.id_key,
                    key_id: SIGNED_PRE_KEY_ID,
                },
            ),
        }
    }
}

impl AwaitAuthKey {
    /// The step after the store was asked for the signed pre-key.
    pub open spec fn next(self, reply: Result<Option<(Seq<u8>, Seq<u8>)>, Failure>) -> SendStage {
        match reply {
            Err(e) => SendStage::Failed(e),
            Ok(None) => SendStage::Failed(Failure::Storage("Missing SPK for auth"@)),
            Ok(Some(k)) => SendStage::Bundle(self.draft@, pair_view(self.id_key), k.0),
        }
    }

    /// Takes the signed pre-key.
    pub fn resume(self, reply: Result<Option<([u8; 32], [u8; 33])>, SdkError>) -> (r: SendStep)
        ensures
            r@ == self.next(key_reply(reply)),
            reply matches Ok(Some(k)) ==> r matches SendStep::Bundle(s) && s.draft == self.draft
                && s.id_key == self.id_key && s.signing_key == k.0,
            reply matches Err(e) ==> r == SendStep::Failed(e),
            reply matches Ok(None) ==> r is Failed,
    {
        match reply {
            Err(e) => SendStep::Failed(e),
            Ok(None) => SendStep::Failed(SdkError::Storage("Missing SPK for auth".to_owned())),
            Ok(Some(k)) => SendStep::Bundle(
                AwaitBundle { draft: self.draft, id_key: self.id_key, signing_key: k.0 },
            ),
        }
    }
}

/// The bundle that a reply holds.
pub open spec fn reply_bundle(reply: BundleResponse) -> Result<Bundle, Failure> {
    bundle_of(
        b64_decoded(reply.identity_key@),
        b64_decoded(reply.signed_pre_key@),
        b64_decoded(reply.signature@),
        match reply.opk {
            Some(o) => Some((o.id, b64_decoded(o.key@))),
            None => None,
        },
    )
}

/// The step after a bundle was parsed.
pub open spec fn addressed(
    letter: Letter,
    id_key: (Seq<u8>, Seq<u8>),
    user_id: Seq<char>,
    device_id: Seq<char>,
    bundle: Result<Bundle, Failure>,
) -> SendStage {
    match bundle {
        Err(e) => SendStage::Failed(e),
        Ok(bundle) => SendStage::Seal(
            letter,
            id_key,
            None,
            Some(Contact { user_id, device_id, bundle }),
        ),
    }
}

impl AwaitBundle {
    /// The request for the bundle: as the sender, authenticated with the signing key, for the
    /// identifier that the message is addressed to.
    pub fn request(&self, api: &ApiClient) -> (r: Result<ApiRequest, SdkError>)
        ensures
            exists|t: std::time::SystemTime, nonce: Seq<u8>|
                request_view(r) == request_to(
                    api.base_url@ + "/bundle/"@ + url_encoded(self.draft.recipient@),
                    #[trigger] auth_texts(
                        self.draft.user_id@,
                        self.signing_key@,
                        seconds_at(t),
                        nonce,
                    ),
                ) && auth_attested(
                    self.draft.user_id@,
                    self.signing_key@,
                    seconds_at(t),
                    nonce,
                ),
    {
        api.bundle_request(
            self.draft.user_id.as_str(),
            &self.signing_key,
            self.draft.recipient.as_str(),
        )
    }

    /// The step after the server was asked for the bundle.
    pub open spec fn next(self, reply: Result<BundleResponse, SdkError>) -> SendStage {
        match reply {
            Err(e) => SendStage::Failed(e@),
            Ok(b) => addressed(
                self.draft@,
                pair_view(self.id_key),
                b.user_id@,
                b.device_id@,
                reply_bundle(b),
            ),
        }
    }

    /// Takes the parsed bundle of the recipient with the given ids.
    pub fn address(
        self,
        user_id: String,
        device_id: String,
        bundle: Result<PreKeyBundle, SdkError>,
    ) -> (r: SendStep)
        ensures
            r@ == addressed(
                self.draft@,
                pair_view(self.id_key),
                user_id@,
                device_id@,
                bundle_view(bundle),
            ),
            bundle matches Ok(b) ==> r matches SendStep::Seal(s) && s.draft == self.draft
                && s.id_key == self.id_key && s.existing is None && s.contact == Some(
                (user_id, device_id, b),
            ),
            bundle matches Err(e) ==> r == SendStep::Failed(e),
    {
        match bundle {
            Err(e) => SendStep::Failed(e),
            Ok(bundle) => SendStep::Seal(
                ReadyToSeal {
                    draft: self.draft,
                    id_key: self.id_key,
                    existing: None,
                    contact: Some((user_id, device_id, bundle)),
                },
            ),
        }
    }

    /// Takes the server's reply.
    pub fn resume(self, reply: Result<BundleResponse, SdkError>) -> (r: SendStep)
        ensures
            r@ == self.next(reply),
            reply matches Ok(b) ==> match r {
                SendStep::Seal(s) => s.draft == self.draft && s.id_key == self.id_key
                    && s.existing is None && (s.contact matches Some((user_id, device_id, _))
                    && user_id == b.user_id && device_id == b.device_id),
                _ => r is Failed,
            },
            reply matches Err(e) ==> r == SendStep::Failed(e),
    {
        match reply {
            Err(e) => SendStep::Failed(e),
            Ok(b) => {
                let opk = match &b.opk {
                    Some(o) => Some((o.id, o.key.as_str())),
                    None => None,
                };
                let bundle = parse_prekey_bundle(
                    b.identity_key.as_str(),
                    b.signed_pre_key.as_str(),
                    b.signature.as_str(),
                    opk,
                );
                self.address(b.user_id, b.device_id, bundle)
            },
        }
    }
}

// ---------------------------------------------------------------------------
// Encrypting and handing over
// ---------------------------------------------------------------------------

/// The step after encryption.
pub open spec fn packed(
    letter: Letter,
    outcome: Result<(Envelope, Session), Failure>,
) -> SendStage {
    match outcome {
        Err(e) => SendStage::Failed(e),
        Ok(o) => SendStage::SaveSession(
            Package {
                user_id: letter.user_id,
                device_id: letter.device_id,
                recipient: letter.recipient,
                envelope: o.0,
                session: o.1,
            },
        ),
    }
}

/// Takes the outcome of encrypting a message.
pub fn pack(draft: Draft, outcome: Result<(EncryptedPayload, ActiveSession), SdkError>) -> (r:
    SendStep)
    ensures
        r@ == packed(draft@, encryption_view(outcome)),
        outcome matches Ok(o) ==> r matches SendStep::SaveSession(s) && s.parcel == (Parcel {
            user_id: draft.user_id,
            device_id: draft.device_id,
            recipient: draft.recipient,
            envelope: o.0,
            session: o.1,
        }),
        outcome matches Err(e) ==> r == SendStep::Failed(e),
{
    match outcome {
        Err(e) => SendStep::Failed(e),
        Ok((envelope, session)) => SendStep::SaveSession(
            AwaitSessionSave {
                parcel: Parcel {
                    user_id: draft.user_id,
                    device_id: draft.device_id,
                    recipient: draft.recipient,
                    envelope,
                    session,
                },
            },
        ),
    }
}

impl ReadyToSeal {
    /// Whether encryption can look at the keys of the recipient's bundle, if it needs them.
    pub open spec fn readable(self) -> bool {
        self.existing is None ==> (self.contact matches Some(c) ==> all_readable(
            bundle_keys(c.2@),
        ))
    }

    /// Whether encryption can look at the keys of the recipient's bundle, if it needs them: up to
    /// the first key that it refuses, all lie on the curve.
    pub fn is_readable(&self) -> (r: bool)
        ensures
            r == self.readable(),
    {
        if self.existing.is_some() {
            return true;
        }
        match &self.contact {
            Some(c) => c.2.is_readable(),
            None => true,
        }
    }

    /// Encrypts the message.
    pub fn seal(self) -> (r: SendStep)
        requires
            self.readable(),
        ensures
            exists|
                ephemeral: Seq<u8>,
                seed: Seq<u8>,
                t: std::time::SystemTime,
                outcome: Result<(Envelope, Session), Failure>,
            | #[trigger]
                encrypts_to(
                    self.draft.payload@,
                    pair_view(self.id_key),
                    optional_session(self.existing),
                    optional_contact(self.contact),
                    ephemeral,
                    seed,
                    millis_at(t),
                    outcome,
                ) && r@ == packed(self.draft@, outcome),
    {
        let ghost payload = self.draft.payload@;
        let ghost existing = optional_session(self.existing);
        let ghost contact = optional_contact(self.contact);
        let outcome = encrypt_message(
            self.draft.payload.as_slice(),
            &self.id_key,
            self.existing,
            self.contact,
        );
        proof {
            let (e, s, t) = choose|e: Seq<u8>, s: Seq<u8>, t: std::time::SystemTime| #[trigger]
                encrypts_to(
                    payload,
                    (self.id_key.0@, self.id_key.1@),
                    existing,
                    contact,
                    e,
                    s,
                    millis_at(t),
                    encryption_view(outcome),
                );
            assert(encrypts_to(
                payload,
                pair_view(self.id_key),
                existing,
                contact,
                e,
                s,
                millis_at(t),
                encryption_view(outcome),
            ));
        }
        pack(self.draft, outcome)
    }
}

/// The step in which a package is enqueued under a message id.
pub open spec fn enqueued(package: Package, message_id: Seq<char>) -> SendStage {
    SendStage::Enqueue(
        package.session.remote_user_id,
        message_id,
        topic_text(
            package.session.remote_user_id,
            package.session.remote_device_id,
            package.user_id,
            package.device_id,
        ),
        package.envelope,
    )
}

/// Enqueues a parcel under a message id, with the topic that leads to the recipient's device.
pub fn enqueue_as(parcel: Parcel, message_id: String) -> (r: SendStep)
    ensures
        r@ == enqueued(parcel@, message_id@),
        r matches SendStep::Enqueue(s) && s.envelope == parcel.envelope && s.message_id == message_id
            && s.recipient_id == parcel.session.remote_user_id,
{
    let topic = message_topic(
        parcel.session.remote_user_id.as_str(),
        parcel.session.remote_device_id.as_str(),
        parcel.user_id.as_str(),
        parcel.device_id.as_str(),
    );
    SendStep::Enqueue(
        AwaitEnqueue {
            recipient_id: parcel.session.remote_user_id,
            message_id,
            topic,
            envelope: parcel.envelope,
        },
    )
}

impl AwaitSessionSave {
    /// The step after the store was asked to save the session, when a message that is enqueued gets
    /// the id `message_id`.
    pub open spec fn next(self, reply: Result<(), Failure>, message_id: Seq<char>) -> SendStage {
        match reply {
            Err(e) => SendStage::Failed(e),
            Ok(_) => if self.parcel@.recipient != self.parcel@.session.remote_user_id {
                SendStage::SaveAlias(self.parcel@)
            } else {
                enqueued(self.parcel@, message_id)
            },
        }
    }

    /// Takes the outcome of saving the session.
    pub fn resume(self, reply: Result<(), SdkError>) -> (r: SendStep)
        ensures
            exists|message_id: Seq<char>|
                is_uuid_v4(message_id) && r@ == #[trigger] self.next(saved_view(reply), message_id),
    {
        let message_id = random_uuid();
        let ghost id = message_id@;
        let ghost answer = saved_view(reply);
        let ghost me = self;
        let r = match reply {
            Err(e) => SendStep::Failed(e),
            Ok(_) => if self.parcel.recipient != self.parcel.session.remote_user_id {
                SendStep::SaveAlias(AwaitAliasSave { parcel: self.parcel })
            } else {
                enqueue_as(self.parcel, message_id)
            },
        };
        assert(r@ == me.next(answer, id));
        r
    }
}

impl AwaitAliasSave {
    /// Goes on, whether the session could be saved or not.
    pub fn resume(self) -> (r: SendStep)
        ensures
            exists|message_id: Seq<char>|
                is_uuid_v4(message_id) && r@ == #[trigger] enqueued(self.parcel@, message_id),
    {
        enqueue_as(self.parcel, random_uuid())
    }
}

impl AwaitEnqueue {
    /// The step after the store was asked to enqueue the message.
    pub open spec fn next(self, reply: Result<i64, Failure>) -> SendStage {
        match reply {
            Err(e) => SendStage::Failed(e),
            Ok(id) => SendStage::Publish(
                id,
                self.topic@,
                self.message_id@,
                self.recipient_id@,
            ),
        }
    }

    /// Takes the id of the outbox entry.
    pub fn resume(self, reply: Result<i64, SdkError>) -> (r: SendStep)
        ensures
            r@ == self.next(
                match reply {
                    Ok(id) => Ok(id),
                    Err(e) => Err(e@),
                },
            ),
            reply matches Ok(id) ==> r == SendStep::Publish(
                Publication {
                    outbox_id: id,
                    topic: self.topic,
                    message_id: self.message_id,
                    recipient_id: self.recipient_id,
                },
            ),
            reply matches Err(e) ==> r == SendStep::Failed(e),
    {
        match reply {
            Err(e) => SendStep::Failed(e),
            Ok(outbox_id) => SendStep::Publish(
                Publication {
                    outbox_id,
                    topic: self.topic,
                    message_id: self.message_id,
                    recipient_id: self.recipient_id,
                },
            ),
        }
    }
}

/// The message id and the recipient of a sent message, or why it was not sent.
pub open spec fn sent_view(r: Result<SentMessage, SdkError>) -> Result<
    (Seq<char>, Seq<char>),
    Failure,
> {
    match r {
        Ok(s) => Ok((s.message_id@, s.recipient_user_id@)),
        Err(e) => Err(e@),
    }
}

impl Publication {
    /// What becomes of the message: it is sent only if it was published.
    pub open spec fn concluded(self, published: Result<(), Failure>) -> Result<
        (Seq<char>, Seq<char>),
        Failure,
    > {
        match published {
            Ok(_) => Ok((self.message_id@, self.recipient_id@)),
            Err(e) => Err(e),
        }
    }

    /// Takes the outcome of publishing the message.
    pub fn resume(self, published: Result<(), SdkError>) -> (r: Result<SentMessage, SdkError>)
        ensures
            sent_view(r) == self.concluded(saved_view(published)),
            published is Ok ==> (r matches Ok(s) && s.message_id == self.message_id
                && s.recipient_user_id == self.recipient_id),
            published matches Err(e) ==> r == Err::<SentMessage, SdkError>(e),
    {
        match published {
            Ok(_) => Ok(
                SentMessage { message_id: self.message_id, recipient_user_id: self.recipient_id },
            ),
            Err(e) => Err(e),
        }
    }

    /// The error of a message that cannot be published for want of a connection.
    pub fn not_connected() -> (r: SdkError)
        ensures
            r@ == Failure::InvalidOperation("MQTT not connected (call connect first)"@),
    {
        SdkError::InvalidOperation("MQTT not connected (call connect first)".to_owned())
    }
}

// ---------------------------------------------------------------------------
// Images
// ---------------------------------------------------------------------------

/// What an image sent at the time `now` is framed as, or the error of the clock.
pub open spec fn image_frame(
    now: Result<u64, Seq<char>>,
    caption: Option<Seq<char>>,
    image: Seq<u8>,
) -> Result<Seq<u8>, Failure> {
    match now {
        Err(e) => Err(Failure::InvalidOperation("System time error: "@ + e)),
        Ok(t) => Ok(image_frame_at((t % 0x1_0000_0000) as u32, caption, image)),
    }
}

/// What an image with the given timestamp is framed as. Without a caption the caption is empty.
pub open spec fn image_frame_at(
    timestamp: u32,
    caption: Option<Seq<char>>,
    image: Seq<u8>,
) -> Seq<u8> {
    framed(
        Message::Image {
            timestamp,
            caption: match caption {
                Some(c) => c,
                None => Seq::empty(),
            },
            image,
        },
    )
}

/// Frames an image with the given timestamp.
pub fn frame_image_at(timestamp_seconds: u32, caption: Option<&str>, image_bytes: &[u8]) -> (r: Vec<
    u8,
>)
    ensures
        r@ == image_frame_at(timestamp_seconds, optional_str(caption), image_bytes@),
{
    match caption {
        Some(c) => encode_image_payload(timestamp_seconds, c, image_bytes),
        None => {
            proof {
                reveal_strlit("");
                assert(""@ =~= Seq::<char>::empty());
            }
            encode_image_payload(timestamp_seconds, "", image_bytes)
        },
    }
}

/// Frames an image with the low 32 bits of a reading of the clock.
pub fn frame_image_with(
    now: Result<u64, String>,
    caption: Option<&str>,
    image_bytes: &[u8],
) -> (r: Result<Vec<u8>, SdkError>)
    ensures
        plaintext_view(r) == image_frame(seconds_view(now), optional_str(caption), image_bytes@),
{
    match now {
        Err(e) => Err(SdkError::InvalidOperation(message("System time error: ", e.as_str()))),
        Ok(t) => {
            let low: u64 = t % 0x1_0000_0000;
            Ok(frame_image_at(low as u32, caption, image_bytes))
        },
    }
}

/// Frames an image with the current time.
pub fn frame_image(caption: Option<&str>, image_bytes: &[u8]) -> (r: Result<Vec<u8>, SdkError>)
    ensures
        exists|t: std::time::SystemTime|
            plaintext_view(r) == #[trigger] image_frame(seconds_at(t), optional_str(caption), image_bytes@),
{
    frame_image_with(unix_seconds(), caption, image_bytes)
}

// ---------------------------------------------------------------------------
// Laws
// ---------------------------------------------------------------------------

/// Nothing is sent that a crash could lose: a message goes on to the outbox only when its session
/// was saved, on to the broker only when the outbox has it, and counts as sent only when it was
/// published.
pub proof fn law_stored_before_sent(
    save: AwaitSessionSave,
    saved: Result<(), Failure>,
    message_id: Seq<char>,
    enqueue: AwaitEnqueue,
    stored: Result<i64, Failure>,
    publication: Publication,
    published: Result<(), Failure>,
)
    ensures
        publication.concluded(published) is Ok <==> published is Ok,
        published matches Err(e) ==> publication.concluded(published) == Err::<
            (Seq<char>, Seq<char>),
            Failure,
        >(e),
        match save.next(saved, message_id) {
            SendStage::SaveAlias(_) => saved is Ok,
            SendStage::Enqueue(..) => saved is Ok,
            SendStage::Failed(e) => saved == Err::<(), Failure>(e),
            _ => false,
        },
        match enqueue.next(stored) {
            SendStage::Publish(id, ..) => stored == Ok::<i64, Failure>(id),
            SendStage::Failed(e) => stored == Err::<i64, Failure>(e),
            _ => false,
        },
{
}

/// A message is addressed to the recipient that the session is with: the device in its topic and
/// the user in its topic and in the outbox are the session's.
pub proof fn law_topic_follows_the_session(package: Package, message_id: Seq<char>)
    requires
        !package.session.remote_user_id.contains('/'),
        !package.session.remote_device_id.contains('/'),
        !package.user_id.contains('/'),
        !package.device_id.contains('/'),
    ensures
        enqueued(package, message_id) matches SendStage::Enqueue(recipient, _, topic, _) && {
            &&& recipient == package.session.remote_user_id
            &&& topic_sender(topic) == Some((package.user_id, package.device_id))
            &&& inbox_prefix(
                package.session.remote_user_id,
                package.session.remote_device_id,
            ).is_prefix_of(topic)
        },
{
    let s = package.session;
    law_topic_names_the_sender(
        s.remote_user_id,
        s.remote_device_id,
        package.user_id,
        package.device_id,
    );
    law_messages_reach_the_subscription(
        s.remote_user_id,
        s.remote_device_id,
        package.user_id,
        package.device_id,
    );
}

/// A reply reaches the device that wrote: where a session was made by receiving a message under the
/// topic that names `sender` and its device, whatever is sent in that session goes to the topic
/// filter that this device subscribes to.
pub proof fn law_replies_reach_the_device_that_wrote(
    recipient: (Seq<char>, Seq<char>),
    sender: (Seq<char>, Seq<char>),
    invite: Invite,
    signed_pre_key: (Seq<u8>, Seq<u8>),
    secret: Result<Seq<u8>, X3DHError>,
    package: Package,
    message_id: Seq<char>,
)
    requires
        !recipient.0.contains('/'),
        !recipient.1.contains('/'),
        !sender.0.contains('/'),
        !sender.1.contains('/'),
        topic_sender(topic_text(recipient.0, recipient.1, sender.0, sender.1)) == Some(
            (invite.mail.sender_id, invite.mail.sender_device_id),
        ),
        settled(invite, signed_pre_key, secret) matches Stage::LocalIdentity(_, session)
            && package.session.remote_user_id == session.remote_user_id
            && package.session.remote_device_id == session.remote_device_id,
    ensures
        enqueued(package, message_id) matches SendStage::Enqueue(to, _, topic, _) && {
            &&& to == sender.0
            &&& topic == topic_text(sender.0, sender.1, package.user_id, package.device_id)
            &&& inbox_prefix(sender.0, sender.1).is_prefix_of(topic)
        },
{
    law_topic_names_the_sender(recipient.0, recipient.1, sender.0, sender.1);
    law_messages_reach_the_subscription(
        sender.0,
        sender.1,
        package.user_id,
        package.device_id,
    );
}

/// Opening a message and sending one leave the contact of a session as it is.
pub proof fn law_sessions_keep_their_contact(
    session: Session,
    identity: (Seq<u8>, Seq<u8>),
    header: Result<Seq<u8>, Seq<char>>,
    ciphertext: Result<Seq<u8>, Seq<char>>,
    chance: Seq<u8>,
    payload: Seq<u8>,
    contact: Option<Contact>,
    ephemeral: Seq<u8>,
    seed: Seq<u8>,
    now: Result<u128, Seq<char>>,
)
    ensures
        same_contact(session, opening(session, identity.1, header, ciphertext, chance).1),
        encrypted(payload, identity, Some(session), contact, ephemeral, seed, now) matches Ok(o)
            ==> same_contact(session, o.1),
{
}

/// Whether two sessions are with the same device of the same user.
pub open spec fn same_contact(a: Session, b: Session) -> bool {
    &&& a.remote_identity == b.remote_identity
    &&& a.remote_user_id == b.remote_user_id
    &&& a.remote_device_id == b.remote_device_id
}

/// Whether a draft is the message that was asked for: as the given user and device, to the given
/// recipient, with exactly the given bytes.
pub open spec fn is_draft_of(
    draft: Draft,
    user_id: Seq<char>,
    device_id: Seq<char>,
    recipient: Seq<char>,
    payload: Seq<u8>,
) -> bool {
    &&& draft.user_id@ == user_id
    &&& draft.device_id@ == device_id
    &&& draft.recipient@ == recipient
    &&& draft.payload@ == payload
}

/// What is encrypted in an existing session is what the caller asked to send: every step up to the
/// encryption hands on the draft as it was given, and the encryption gets the identity key and the
/// session out of the stores.
pub proof fn law_what_is_sealed_was_asked_for(
    user_id: Seq<char>,
    device_id: Seq<char>,
    recipient: Seq<char>,
    payload: Seq<u8>,
    id_key: (Seq<u8>, Seq<u8>),
    session: Session,
    r1: SendStep,
    r2: SendStep,
    r3: SendStep,
)
    requires
        r1@ == send_begun(Some(user_id), Some(device_id), recipient, payload),
        r1 matches SendStep::IdentityKey(s) ==> r2@ == s.next(Ok(Some(id_key))),
        r2 matches SendStep::Session(s) ==> r3@ == s.next(Ok(Some(Ok(session)))),
    ensures
        r1 is IdentityKey && r2 is Session && r3 is Seal,
        is_draft_of(r1->IdentityKey_0.draft, user_id, device_id, recipient, payload),
        is_draft_of(r2->Session_0.draft, user_id, device_id, recipient, payload),
        ({
            let seal = r3->Seal_0;
            &&& is_draft_of(seal.draft, user_id, device_id, recipient, payload)
            &&& seal.id_key.0@ == id_key.0 && seal.id_key.1@ == id_key.1
            &&& seal.existing matches Some(s) && s@ == session
            &&& seal.contact is None
        }),
{
}

/// Where there is no session, what is encrypted is what the caller asked to send as well: every step
/// up to the encryption hands on the draft as it was given. The request for the recipient's keys is
/// signed with the signed pre-key out of the store, and the encryption gets the identity key and the
/// keys that the server has sent, under the user and the device that the server has named.
pub proof fn law_what_is_sealed_first_was_asked_for(
    user_id: Seq<char>,
    device_id: Seq<char>,
    recipient: Seq<char>,
    payload: Seq<u8>,
    id_key: (Seq<u8>, Seq<u8>),
    signed_pre_key: (Seq<u8>, Seq<u8>),
    reply: BundleResponse,
    bundle: Bundle,
    r1: SendStep,
    r2: SendStep,
    r3: SendStep,
    r4: SendStep,
    r5: SendStep,
)
    requires
        reply_bundle(reply) == Ok::<Bundle, Failure>(bundle),
        r1@ == send_begun(Some(user_id), Some(device_id), recipient, payload),
        r1 matches SendStep::IdentityKey(s) ==> r2@ == s.next(Ok(Some(id_key))),
        r2 matches SendStep::Session(s) ==> r3@ == s.next(Ok(None)),
        r3 matches SendStep::SignedPreKey(s) ==> r4@ == s.next(Ok(Some(signed_pre_key))),
        r4 matches SendStep::Bundle(s) ==> r5@ == s.next(Ok(reply)),
    ensures
        r1 is IdentityKey && r2 is Session && r3 is SignedPreKey && r4 is Bundle && r5 is Seal,
        is_draft_of(r1->IdentityKey_0.draft, user_id, device_id, recipient, payload),
        is_draft_of(r2->Session_0.draft, user_id, device_id, recipient, payload),
        is_draft_of(r3->SignedPreKey_0.draft, user_id, device_id, recipient, payload),
        is_draft_of(r4->Bundle_0.draft, user_id, device_id, recipient, payload),
        r4->Bundle_0.signing_key@ == signed_pre_key.0,
        ({
            let seal = r5->Seal_0;
            &&& is_draft_of(seal.draft, user_id, device_id, recipient, payload)
            &&& seal.id_key.0@ == id_key.0 && seal.id_key.1@ == id_key.1
            &&& seal.existing is None
            &&& seal.contact matches Some(c) && {
                &&& c.0@ == reply.user_id@
                &&& c.1@ == reply.device_id@
                &&& c.2@ == bundle
                &&& b64_decoded(reply.identity_key@) == Ok::<Seq<u8>, Seq<char>>(
                    c.2.identity_key@,
                )
                &&& b64_decoded(reply.signed_pre_key@) == Ok::<Seq<u8>, Seq<char>>(
                    c.2.signed_prekey.public_key@,
                )
                &&& b64_decoded(reply.signature@) == Ok::<Seq<u8>, Seq<char>>(
                    c.2.signed_prekey.signature@,
                )
                &&& match (reply.opk, c.2.one_time_prekey) {
                    (Some(o), Some(k)) => k.id == o.id && b64_decoded(o.key@) == Ok::<
                        Seq<u8>,
                        Seq<char>,
                    >(k.public_key@),
                    (None, None) => true,
                    _ => false,
                }
            }
        }),
{
}

/// What was encrypted is what is enqueued and published: the envelope reaches the outbox as it is,
/// under the user that the session is with and the topic of that user's device. The session is saved
/// under the identifier that the message was addressed to, and under the user's id as well if that is
/// another. What is published is the outbox entry, on the same topic, and the caller gets the message
/// id and the user.
pub proof fn law_what_is_sealed_is_sent(
    draft: Draft,
    outcome: (Envelope, Session),
    message_id: Seq<char>,
    outbox_id: i64,
    r1: SendStep,
    r2: SendStep,
    r3: SendStep,
    r4: SendStep,
    sent: Result<SentMessage, SdkError>,
)
    requires
        r1@ == packed(draft@, Ok(outcome)),
        r1 matches SendStep::SaveSession(s) ==> r2@ == s.next(Ok(()), message_id),
        match r2 {
            SendStep::SaveAlias(s) => r3@ == enqueued(s.parcel@, message_id),
            _ => r3 == r2,
        },
        r3 matches SendStep::Enqueue(s) ==> r4@ == s.next(Ok(outbox_id)),
        r4 matches SendStep::Publish(p) ==> sent_view(sent) == p.concluded(Ok(())),
    ensures
        r1 matches SendStep::SaveSession(s) && s.parcel.recipient@ == draft.recipient@
            && s.parcel.session@ == outcome.1 && s.parcel.envelope@ == outcome.0,
        r2 is SaveAlias <==> draft.recipient@ != outcome.1.remote_user_id,
        r2 matches SendStep::SaveAlias(s) ==> s.parcel.session@ == outcome.1,
        r3 matches SendStep::Enqueue(s) && {
            &&& s.envelope@ == outcome.0
            &&& s.message_id@ == message_id
            &&& s.recipient_id@ == outcome.1.remote_user_id
            &&& s.topic@ == topic_text(
                outcome.1.remote_user_id,
                outcome.1.remote_device_id,
                draft.user_id@,
                draft.device_id@,
            )
        },
        r4 matches SendStep::Publish(p) && {
            &&& p.outbox_id == outbox_id
            &&& p.topic@ == topic_text(
                outcome.1.remote_user_id,
                outcome.1.remote_device_id,
                draft.user_id@,
                draft.device_id@,
            )
        },
        sent matches Ok(m) && m.message_id@ == message_id && m.recipient_user_id@
            == outcome.1.remote_user_id,
{
}

/// Sending stops at the first thing that goes wrong, and reports it. Without ids nothing begins.
pub proof fn law_sending_failures_are_reported(
    key: AwaitSenderKey,
    session: AwaitContactSession,
    auth: AwaitAuthKey,
    bundle: AwaitBundle,
    draft: Draft,
    save: AwaitSessionSave,
    enqueue: AwaitEnqueue,
    publication: Publication,
    message_id: Seq<char>,
    e: SdkError,
    text: Seq<char>,
    id: Option<Seq<char>>,
    recipient: Seq<char>,
    payload: Seq<u8>,
)
    ensures
        key.next(Err(e@)) == SendStage::Failed(e@),
        session.next(Err(e@)) == SendStage::Failed(e@),
        auth.next(Err(e@)) == SendStage::Failed(e@),
        bundle.next(Err(e)) == SendStage::Failed(e@),
        packed(draft@, Err(e@)) == SendStage::Failed(e@),
        save.next(Err(e@), message_id) == SendStage::Failed(e@),
        enqueue.next(Err(e@)) == SendStage::Failed(e@),
        publication.concluded(Err(e@)) == Err::<(Seq<char>, Seq<char>), Failure>(e@),
        key.next(Ok(None)) == SendStage::Failed(
            Failure::Storage("Identity key missing from keystore"@),
        ),
        session.next(Ok(Some(Err(text)))) == SendStage::Failed(
            Failure::Storage("Session deserialize error: "@ + text),
        ),
        auth.next(Ok(None)) == SendStage::Failed(Failure::Storage("Missing SPK for auth"@)),
        send_begun(None, id, recipient, payload) == SendStage::Failed(
            Failure::InvalidOperation("User ID not initialized (call connect first)"@),
        ),
        id is Some ==> send_begun(id, None, recipient, payload) == SendStage::Failed(
            Failure::InvalidOperation("Device ID not initialized (call connect first)"@),
        ),
{
}

/// An image is framed with the timestamp, the caption and the bytes that were given, and without a
/// caption with an empty one: that is what its frame decodes to, as long as the caption takes at most
/// 65535 bytes.
pub proof fn law_image_is_read_back(timestamp: u32, caption: Option<Seq<char>>, image: Seq<u8>)
    requires
        caption matches Some(c) ==> encode_utf8(c).len() <= u16::MAX,
    ensures
        decoded(image_frame_at(timestamp, caption, image)) == Ok::<Message, Fault>(
            Message::Image {
                timestamp,
                caption: match caption {
                    Some(c) => c,
                    None => Seq::empty(),
                },
                image,
            },
        ),
{
    assert(encode_utf8(Seq::<char>::empty()).len() == 0);
    law_decode_undoes_encode(
        Message::Image {
            timestamp,
            caption: match caption {
                Some(c) => c,
                None => Seq::empty(),
            },
            image,
        },
    );
}

/// However long its caption is, an image is framed as any other message of the same contents.
pub proof fn law_image_is_framed_as_given(timestamp: u32, caption: Seq<char>, image: Seq<u8>)
    ensures
        image_frame_at(timestamp, Some(caption), image) == framed(
            Message::Image { timestamp, caption, image },
        ),
        image_frame_at(timestamp, None, image) == framed(
            Message::Image { timestamp, caption: Seq::empty(), image },
        ),
{
}

/// The timestamp of an image is the low half of the clock's time in seconds, which is all of it up to
/// the year 2106. An image is not framed at all where the clock cannot be read.
pub proof fn law_image_has_the_time_of_the_clock(
    now: Result<u64, Seq<char>>,
    caption: Option<Seq<char>>,
    image: Seq<u8>,
)
    requires
        caption matches Some(c) ==> encode_utf8(c).len() <= u16::MAX,
    ensures
        match now {
            Err(e) => image_frame(now, caption, image) == Err::<Seq<u8>, Failure>(
                Failure::InvalidOperation("System time error: "@ + e),
            ),
            Ok(t) => image_frame(now, caption, image) matches Ok(frame) && (decoded(frame) matches Ok(
                m,
            ) && m matches Message::Image { timestamp, caption: c, image: i } && {
                &&& timestamp as int == t % 0x1_0000_0000
                &&& i == image
                &&& caption matches Some(given) ==> c == given
                &&& caption is None ==> c.len() == 0
            }),
        },
{
    if let Ok(t) = now {
        law_image_is_read_back((t % 0x1_0000_0000) as u32, caption, image);
    }
}

/// The request for a recipient's keys asks for the recipient that the message is addressed to, in the
/// name of the sender, and can be checked with the public half of the key that signs it.
pub proof fn law_bundle_request_can_be_checked(
    wait: AwaitBundle,
    base_url: Seq<char>,
    now: Result<u64, Seq<char>>,
    nonce: Seq<u8>,
    q: ApiRequest,
)
    requires
        auth_attested(wait.draft.user_id@, wait.signing_key@, now, nonce),
        request_view(Ok(q)) == request_to(
            base_url + "/bundle/"@ + url_encoded(wait.draft.recipient@),
            auth_texts(wait.draft.user_id@, wait.signing_key@, now, nonce),
        ),
    ensures
        ({
            let user = value_under(q.headers@, "X-User-Id"@);
            let timestamp = value_under(q.headers@, "X-Timestamp"@);
            let signature = value_under(q.headers@, "X-Signature"@);
            let vrf = value_under(q.headers@, "X-Vrf"@);
            &&& q.url@ == base_url + "/bundle/"@ + url_encoded(wait.draft.recipient@)
            &&& user == Some(wait.draft.user_id@)
            &&& timestamp is Some && signature is Some && vrf is Some
            &&& checks_out(
                wait.signing_key@,
                encode_utf8(user->0 + timestamp->0),
                signature->0,
                vrf->0,
            )
        }),
{
    law_request_goes_out_with_credentials(
        base_url + "/bundle/"@ + url_encoded(wait.draft.recipient@),
        auth_texts(wait.draft.user_id@, wait.signing_key@, now, nonce),
        Ok(q),
    );
    law_headers_can_be_checked(
        wait.draft.user_id@,
        wait.signing_key@,
        now,
        nonce,
        q.headers,
    );
}

}
