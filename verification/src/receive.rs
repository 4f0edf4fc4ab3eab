//! Decryption of incoming messages.
//!
//! Keys and sessions come out of a store that answers later, so decryption is a chain of steps:
//! each step says what it needs, and takes the answer to give the next step. A chain starts with
//! [`begin_decrypt`] and ends in [`DecryptStep::Done`] or [`DecryptStep::Failed`].
use vstd::prelude::*;
use vstd::set_lib::set_int_range;
use vstd::string::*;

use crate::crypto::{array_view, decode_b64_33, key_of, law_encoded_key_is_read_back};
use crate::encoding::{b64, b64_decode, b64_decoded, decodes_to, law_b64_is_read_back};
use crate::error::{message, Failure, SdkError, X3DHError};
use crate::session::{comes_back, comes_next, encrypts_to, opening, opening_with};
use crate::session::{ActiveSession, Contact, EncryptedPayload, Envelope, Session};
use crate::signal::{all_readable, any_refused, chain_after, chain_limit, curve_public};
use crate::signal::{decode_public_key, decoded_key, heard_in, init_receiver_state, key_state};
use crate::signal::{numbers_of, opened, optional_public, orderly, received_count, receiver_state};
use crate::signal::{replies_in, sealed, skip_limit, store_limit, well_encoded};
use crate::signal::{x3dh_respond, x3dh_response, x3dh_secret};
use crate::signal::{Bundle, Exchange, KeyState, Opening, Sealing, Turn, SIGNED_PRE_KEY_ID};

verus! {

// ---------------------------------------------------------------------------
// Steps
// ---------------------------------------------------------------------------

/// The parts of an incoming envelope that every message has.
pub struct Incoming {
    pub header: String,
    pub ciphertext: String,
    pub sender_id: String,
    pub sender_device_id: String,
}

/// The contents of an [`Incoming`].
#[verifier::ext_equal]
pub struct Mail {
    pub header: Seq<char>,
    pub ciphertext: Seq<char>,
    pub sender_id: Seq<char>,
    pub sender_device_id: Seq<char>,
}

impl View for Incoming {
    type V = Mail;

    open spec fn view(&self) -> Mail {
        Mail {
            header: self.header@,
            ciphertext: self.ciphertext@,
            sender_id: self.sender_id@,
            sender_device_id: self.sender_device_id@,
        }
    }
}

/// The first message of a session.
pub struct Invitation {
    pub incoming: Incoming,
    pub identity_key: [u8; 33],
    pub ephemeral_key: [u8; 33],
    pub spk_id: u32,
    pub opk_id: Option<u32>,
}

/// The contents of an [`Invitation`].
#[verifier::ext_equal]
pub struct Invite {
    pub mail: Mail,
    pub identity_key: Seq<u8>,
    pub ephemeral_key: Seq<u8>,
    pub spk_id: u32,
    pub opk_id: Option<u32>,
}

impl View for Invitation {
    type V = Invite;

    open spec fn view(&self) -> Invite {
        Invite {
            mail: self.incoming@,
            identity_key: self.identity_key@,
            ephemeral_key: self.ephemeral_key@,
            spk_id: self.spk_id,
            opk_id: self.opk_id,
        }
    }
}

/// Needs the local identity key.
pub struct AwaitIdentityKey {
    pub invitation: Invitation,
}

/// Needs the signed pre-key with the id in the invitation.
pub struct AwaitSignedPreKey {
    pub invitation: Invitation,
    pub identity_secret: [u8; 32],
}

/// Needs the one-time pre-key with the id `opk_id`, which the store is to give up.
pub struct AwaitOneTimePreKey {
    pub invitation: Invitation,
    pub identity_secret: [u8; 32],
    pub signed_pre_key: ([u8; 32], [u8; 33]),
    pub opk_id: u32,
}

/// Has all keys that the agreement on a new session takes.
pub struct Agreement {
    pub invitation: Invitation,
    pub identity_secret: [u8; 32],
    pub signed_pre_key: ([u8; 32], [u8; 33]),
    pub one_time_secret: Option<[u8; 32]>,
}

/// Needs the session with the sender.
pub struct AwaitSession {
    pub incoming: Incoming,
}

/// Needs the local identity key for the associated data.
pub struct AwaitLocalIdentity {
    pub incoming: Incoming,
    pub session: ActiveSession,
}

/// Has the plaintext, and needs the advanced session saved under the sender's id.
pub struct AwaitSave {
    pub sender_id: String,
    pub session: ActiveSession,
    pub plaintext: Vec<u8>,
}

/// A step of the decryption of a message.
pub enum DecryptStep {
    IdentityKey(AwaitIdentityKey),
    SignedPreKey(AwaitSignedPreKey),
    OneTimePreKey(AwaitOneTimePreKey),
    Agree(Agreement),
    Session(AwaitSession),
    LocalIdentity(AwaitLocalIdentity),
    Save(AwaitSave),
    Done(Vec<u8>),
    Failed(SdkError),
}

/// The contents of a [`DecryptStep`].
#[verifier::ext_equal]
pub enum Stage {
    IdentityKey(Invite),
    SignedPreKey(Invite, Seq<u8>),
    OneTimePreKey(Invite, Seq<u8>, (Seq<u8>, Seq<u8>), u32),
    Agree(Invite, Seq<u8>, (Seq<u8>, Seq<u8>), Option<Seq<u8>>),
    Session(Mail),
    LocalIdentity(Mail, Session),
    Save(Seq<char>, Session, Seq<u8>),
    Done(Seq<u8>),
    Failed(Failure),
}

/// The contents of a key pair.
pub open spec fn pair_view(k: ([u8; 32], [u8; 33])) -> (Seq<u8>, Seq<u8>) {
    (k.0@, k.1@)
}

/// The contents of a secret that may be absent.
pub open spec fn secret_view(k: Option<[u8; 32]>) -> Option<Seq<u8>> {
    match k {
        Some(k) => Some(k@),
        None => None,
    }
}

impl View for DecryptStep {
    type V = Stage;

    open spec fn view(&self) -> Stage {
        match self {
            DecryptStep::IdentityKey(s) => Stage::IdentityKey(s.invitation@),
            DecryptStep::SignedPreKey(s) => Stage::SignedPreKey(s.invitation@, s.identity_secret@),
            DecryptStep::OneTimePreKey(s) => Stage::OneTimePreKey(
                s.invitation@,
                s.identity_secret@,
                pair_view(s.signed_pre_key),
                s.opk_id,
            ),
            DecryptStep::Agree(s) => Stage::Agree(
                s.invitation@,
                s.identity_secret@,
                pair_view(s.signed_pre_key),
                secret_view(s.one_time_secret),
            ),
            DecryptStep::Session(s) => Stage::Session(s.incoming@),
            DecryptStep::LocalIdentity(s) => Stage::LocalIdentity(s.incoming@, s.session@),
            DecryptStep::Save(s) => Stage::Save(s.sender_id@, s.session@, s.plaintext@),
            DecryptStep::Done(p) => Stage::Done(p@),
            DecryptStep::Failed(e) => Stage::Failed(e@),
        }
    }
}

// ---------------------------------------------------------------------------
// Reading the envelope
// ---------------------------------------------------------------------------

/// The parts of an envelope that every message has. A sender stands as user id and device id.
pub open spec fn mail_of(envelope: Envelope, sender: (Seq<char>, Seq<char>)) -> Mail {
    Mail {
        header: envelope.header,
        ciphertext: envelope.ciphertext,
        sender_id: sender.0,
        sender_device_id: sender.1,
    }
}

/// The step that follows once the sender's keys were decoded.
pub open spec fn invited(
    mail: Mail,
    identity_key: Result<Seq<u8>, Failure>,
    ephemeral_key: Result<Seq<u8>, Failure>,
    spk_id: Option<u32>,
    opk_id: Option<u32>,
) -> Stage {
    match (identity_key, ephemeral_key) {
        (Err(e), _) => Stage::Failed(e),
        (_, Err(e)) => Stage::Failed(e),
        (Ok(ik), Ok(ek)) => Stage::IdentityKey(
            Invite {
                mail,
                identity_key: ik,
                ephemeral_key: ek,
                spk_id: match spk_id {
                    Some(id) => id,
                    None => SIGNED_PRE_KEY_ID,
                },
                opk_id,
            },
        ),
    }
}

/// The first step for a message from `sender`. A message with an identity key and an ephemeral
/// key starts a new session; any other belongs to an existing one.
pub open spec fn first_stage(
    payload: Result<Envelope, Seq<char>>,
    sender: (Seq<char>, Seq<char>),
) -> Stage {
    match payload {
        Err(e) => Stage::Failed(Failure::Crypto("Invalid payload json: "@ + e)),
        Ok(envelope) => match (envelope.identity_key, envelope.ephemeral_key) {
            (Some(ik), Some(ek)) => invited(
                mail_of(envelope, sender),
                key_of(b64_decoded(ik)),
                key_of(b64_decoded(ek)),
                envelope.spk_id,
                envelope.opk_id,
            ),
            _ => Stage::Session(mail_of(envelope, sender)),
        },
    }
}

/// The contents of a parsed envelope.
pub open spec fn envelope_view(payload: Result<EncryptedPayload, String>) -> Result<
    Envelope,
    Seq<char>,
> {
    match payload {
        Ok(p) => Ok(p@),
        Err(e) => Err(e@),
    }
}

/// Takes up the first message of a session, given what decoding the sender's keys gave. The signed
/// pre-key is the one under [`SIGNED_PRE_KEY_ID`] unless the message names another.
pub fn invite(
    incoming: Incoming,
    identity_key: Result<[u8; 33], SdkError>,
    ephemeral_key: Result<[u8; 33], SdkError>,
    spk_id: Option<u32>,
    opk_id: Option<u32>,
) -> (r: DecryptStep)
    ensures
        r@ == invited(
            incoming@,
            array_view(identity_key),
            array_view(ephemeral_key),
            spk_id,
            opk_id,
        ),
{
    let identity_key = match identity_key {
        Ok(k) => k,
        Err(e) => return DecryptStep::Failed(e),
    };
    let ephemeral_key = match ephemeral_key {
        Ok(k) => k,
        Err(e) => return DecryptStep::Failed(e),
    };
    let spk_id: u32 = match spk_id {
        Some(id) => id,
        None => SIGNED_PRE_KEY_ID,
    };
    DecryptStep::IdentityKey(
        AwaitIdentityKey {
            invitation: Invitation { incoming, identity_key, ephemeral_key, spk_id, opk_id },
        },
    )
}

/// Takes up a message from a user's device, given what parsing it gave.
pub fn begin_decrypt(
    payload: Result<EncryptedPayload, String>,
    sender_id: &str,
    sender_device_id: &str,
) -> (r: DecryptStep)
    ensures
        r@ == first_stage(envelope_view(payload), (sender_id@, sender_device_id@)),
{
    let p = match payload {
        Ok(p) => p,
        Err(e) => return DecryptStep::Failed(
            SdkError::Crypto(message("Invalid payload json: ", e.as_str())),
        ),
    };
    let incoming = Incoming {
        header: p.header,
        ciphertext: p.ciphertext,
        sender_id: sender_id.to_owned(),
        sender_device_id: sender_device_id.to_owned(),
    };
    match (p.identity_key, p.ephemeral_key) {
        (Some(ik), Some(ek)) => invite(
            incoming,
            decode_b64_33(ik.as_str()),
            decode_b64_33(ek.as_str()),
            p.spk_id,
            p.opk_id,
        ),
        _ => DecryptStep::Session(AwaitSession { incoming }),
    }
}

// ---------------------------------------------------------------------------
// Gathering keys
// ---------------------------------------------------------------------------

/// The contents of a key store's answer.
pub open spec fn key_reply(reply: Result<Option<([u8; 32], [u8; 33])>, SdkError>) -> Result<
    Option<(Seq<u8>, Seq<u8>)>,
    Failure,
> {
    match reply {
        Ok(Some(k)) => Ok(Some(pair_view(k))),
        Ok(None) => Ok(None),
        Err(e) => Err(e@),
    }
}

impl AwaitIdentityKey {
    /// The step after the store was asked for the identity key.
    pub open spec fn next(self, reply: Result<Option<(Seq<u8>, Seq<u8>)>, Failure>) -> Stage {
        match reply {
            Err(e) => Stage::Failed(e),
            Ok(None) => Stage::Failed(Failure::Storage("Identity key missing"@)),
            Ok(Some(k)) => Stage::SignedPreKey(self.invitation@, k.0),
        }
    }

    /// Takes the identity key.
    pub fn resume(self, reply: Result<Option<([u8; 32], [u8; 33])>, SdkError>) -> (r: DecryptStep)
        ensures
            r@ == self.next(key_reply(reply)),
            reply matches Ok(Some(k)) ==> r == DecryptStep::SignedPreKey(
                AwaitSignedPreKey { invitation: self.invitation, identity_secret: k.0 },
            ),
            reply matches Err(e) ==> r == DecryptStep::Failed(e),
            reply matches Ok(None) ==> r is Failed,
    {
        match reply {
            Err(e) => DecryptStep::Failed(e),
            Ok(None) => DecryptStep::Failed(SdkError::Storage("Identity key missing".to_owned())),
            Ok(Some(k)) => DecryptStep::SignedPreKey(
                AwaitSignedPreKey { invitation: self.invitation, identity_secret: k.0 },
            ),
        }
    }
}

impl AwaitSignedPreKey {
    /// The step after the store was asked for the signed pre-key. The one-time pre-key is consumed
    /// only now, when the other keys are there.
    pub open spec fn next(self, reply: Result<Option<(Seq<u8>, Seq<u8>)>, Failure>) -> Stage {
        match reply {
            Err(e) => Stage::Failed(e),
            Ok(None) => Stage::Failed(Failure::Storage("SPK missing"@)),
            Ok(Some(k)) => match self.invitation.opk_id {
                Some(id) => Stage::OneTimePreKey(
                    self.invitation@,
                    self.identity_secret@,
                    k,
                    id,
                ),
                None => Stage::Agree(self.invitation@, self.identity_secret@, k, None),
            },
        }
    }

    /// Takes the signed pre-key.
    pub fn resume(self, reply: Result<Option<([u8; 32], [u8; 33])>, SdkError>) -> (r: DecryptStep)
        ensures
            r@ == self.next(key_reply(reply)),
            reply matches Ok(Some(k)) ==> match (self.invitation.opk_id, r) {
                (Some(id), DecryptStep::OneTimePreKey(s)) => s == (AwaitOneTimePreKey {
                    invitation: self.invitation,
                    identity_secret: self.identity_secret,
                    signed_pre_key: k,
                    opk_id: id,
                }),
                (None, DecryptStep::Agree(g)) => g == (Agreement {
                    invitation: self.invitation,
                    identity_secret: self.identity_secret,
                    signed_pre_key: k,
                    one_time_secret: None,
                }),
                _ => false,
            },
            reply matches Err(e) ==> r == DecryptStep::Failed(e),
            reply matches Ok(None) ==> r is Failed,
    {
        match reply {
            Err(e) => DecryptStep::Failed(e),
            Ok(None) => DecryptStep::Failed(SdkError::Storage("SPK missing".to_owned())),
            Ok(Some(signed_pre_key)) => match self.invitation.opk_id {
                Some(opk_id) => DecryptStep::OneTimePreKey(
                    AwaitOneTimePreKey {
                        invitation: self.invitation,
                        identity_secret: self.identity_secret,
                        signed_pre_key,
                        opk_id,
                    },
                ),
                None => DecryptStep::Agree(
                    Agreement {
                        invitation: self.invitation,
                        identity_secret: self.identity_secret,
                        signed_pre_key,
                        one_time_secret: None,
                    },
                ),
            },
        }
    }
}

impl AwaitOneTimePreKey {
    /// The step after the store was asked to give up the one-time pre-key. A missing one is not an
    /// error.
    pub open spec fn next(self, reply: Result<Option<(Seq<u8>, Seq<u8>)>, Failure>) -> Stage {
        match reply {
            Err(e) => Stage::Failed(e),
            Ok(k) => Stage::Agree(
                self.invitation@,
                self.identity_secret@,
                pair_view(self.signed_pre_key),
                match k {
                    Some(k) => Some(k.0),
                    None => None,
                },
            ),
        }
    }

    /// Takes the one-time pre-key.
    pub fn resume(self, reply: Result<Option<([u8; 32], [u8; 33])>, SdkError>) -> (r: DecryptStep)
        ensures
            r@ == self.next(key_reply(reply)),
            reply matches Ok(k) ==> (r matches DecryptStep::Agree(g) && g.invitation
                == self.invitation && g.identity_secret == self.identity_secret && g.signed_pre_key
                == self.signed_pre_key && match (k, g.one_time_secret) {
                (Some(k), Some(secret)) => secret == k.0,
                (None, None) => true,
                _ => false,
            }),
            reply matches Err(e) ==> r == DecryptStep::Failed(e),
    {
        let one_time_secret = match reply {
            Err(e) => return DecryptStep::Failed(e),
            Ok(Some(k)) => Some(k.0),
            Ok(None) => None,
        };
        DecryptStep::Agree(
            Agreement {
                invitation: self.invitation,
                identity_secret: self.identity_secret,
                signed_pre_key: self.signed_pre_key,
                one_time_secret,
            },
        )
    }
}

// ---------------------------------------------------------------------------
// Agreeing on a new session
// ---------------------------------------------------------------------------

/// The step that follows once the shared secret was computed. The session is with the device that
/// sent the invitation.
pub open spec fn settled(
    invite: Invite,
    signed_pre_key: (Seq<u8>, Seq<u8>),
    secret: Result<Seq<u8>, X3DHError>,
) -> Stage {
    match (secret, decoded_key(signed_pre_key.1)) {
        (Err(e), _) => Stage::Failed(Failure::X3dh(e)),
        (_, None) => Stage::Failed(Failure::Crypto("Invalid SPK pub"@)),
        (Ok(s), Some(public)) => Stage::LocalIdentity(
            invite.mail,
            Session {
                ratchet: receiver_state(s, signed_pre_key.0, public),
                remote_identity: invite.identity_key,
                remote_user_id: invite.mail.sender_id,
                remote_device_id: invite.mail.sender_device_id,
            },
        ),
    }
}

/// The step that an agreement leads to.
pub open spec fn agreed(
    invite: Invite,
    identity_secret: Seq<u8>,
    signed_pre_key: (Seq<u8>, Seq<u8>),
    one_time_secret: Option<Seq<u8>>,
) -> Stage {
    settled(
        invite,
        signed_pre_key,
        if any_refused(seq![invite.identity_key, invite.ephemeral_key]) {
            Err(X3DHError::InvalidKey)
        } else {
            Ok(
                x3dh_response(
                    identity_secret,
                    signed_pre_key.0,
                    one_time_secret,
                    invite.identity_key,
                    invite.ephemeral_key,
                ),
            )
        },
    )
}

/// Whether `stage` holds the counterpart of the session of any sender that has the secrets of the
/// public keys in the invitation.
pub open spec fn answers(
    invite: Invite,
    identity_secret: Seq<u8>,
    signed_pre_key: (Seq<u8>, Seq<u8>),
    one_time_secret: Option<Seq<u8>>,
    stage: Stage,
) -> bool {
    forall|a: Seq<u8>, e: Seq<u8>|
        a.len() == 32 && e.len() == 32 && invite.identity_key == #[trigger] curve_public(a)
            && invite.ephemeral_key == #[trigger] curve_public(e) && decoded_key(
            signed_pre_key.1,
        ) is Some ==> stage is LocalIdentity && stage->LocalIdentity_1.ratchet == receiver_state(
            x3dh_secret(
                a,
                e,
                curve_public(identity_secret),
                curve_public(signed_pre_key.0),
                optional_public(one_time_secret),
            ),
            signed_pre_key.0,
            signed_pre_key.1.skip(1),
        )
}

impl Agreement {
    /// The keys of the sender, in the order in which they are looked at.
    pub open spec fn sender_keys(self) -> Seq<Seq<u8>> {
        seq![self.invitation.identity_key@, self.invitation.ephemeral_key@]
    }

    /// Whether the agreement can look at the sender's keys: up to the first key that it refuses,
    /// all lie on the curve.
    pub fn is_readable(&self) -> (r: bool)
        ensures
            r == all_readable(self.sender_keys()),
    {
        proof {
            let keys = self.sender_keys();
            reveal_with_fuel(all_readable, 3);
            assert(keys.skip(1)[0] == keys[1]);
        }
        match key_state(&self.invitation.identity_key) {
            KeyState::Unreadable => return false,
            KeyState::Refused => return true,
            KeyState::Good => {},
        }
        match key_state(&self.invitation.ephemeral_key) {
            KeyState::Unreadable => false,
            KeyState::Refused => true,
            KeyState::Good => true,
        }
    }

    /// Sets up the receiving session, given the shared secret or why there is none.
    pub fn settle(self, secret: Result<[u8; 32], X3DHError>) -> (r: DecryptStep)
        ensures
            r@ == settled(
                self.invitation@,
                pair_view(self.signed_pre_key),
                crate::signal::response_view(secret),
            ),
    {
        let shared_secret = match secret {
            Ok(s) => s,
            Err(e) => return DecryptStep::Failed(SdkError::from(e)),
        };
        let public = match decode_public_key(&self.signed_pre_key.1) {
            Some(k) => k,
            None => return DecryptStep::Failed(SdkError::Crypto("Invalid SPK pub".to_owned())),
        };
        let ratchet_state = init_receiver_state(shared_secret, self.signed_pre_key.0, public);
        let mut remote_identity_pub: Vec<u8> = Vec::new();
        remote_identity_pub.extend_from_slice(&self.invitation.identity_key);
        assert(remote_identity_pub@ =~= self.invitation.identity_key@);
        let session = ActiveSession {
            ratchet_state,
            remote_identity_pub,
            remote_user_id: self.invitation.incoming.sender_id.clone(),
            remote_device_id: self.invitation.incoming.sender_device_id.clone(),
        };
        DecryptStep::LocalIdentity(
            AwaitLocalIdentity { incoming: self.invitation.incoming, session },
        )
    }

    /// Agrees on a shared secret with the sender and sets up the receiving session.
    pub fn agree(self) -> (r: DecryptStep)
        requires
            all_readable(self.sender_keys()),
        ensures
            r@ == agreed(
                self.invitation@,
                self.identity_secret@,
                pair_view(self.signed_pre_key),
                secret_view(self.one_time_secret),
            ),
            answers(
                self.invitation@,
                self.identity_secret@,
                pair_view(self.signed_pre_key),
                secret_view(self.one_time_secret),
                r@,
            ),
    {
        let secret = x3dh_respond(
            &self.identity_secret,
            &self.signed_pre_key.0,
            self.one_time_secret.as_ref(),
            &self.invitation.identity_key,
            &self.invitation.ephemeral_key,
        );
        self.settle(secret)
    }
}

// ---------------------------------------------------------------------------
// Opening the message
// ---------------------------------------------------------------------------

/// The contents of a session store's answer, with what parsing the stored session gave.
pub open spec fn session_reply(
    reply: Result<Option<Result<ActiveSession, String>>, SdkError>,
) -> Result<Option<Result<Session, Seq<char>>>, Failure> {
    match reply {
        Ok(Some(Ok(s))) => Ok(Some(Ok(s@))),
        Ok(Some(Err(e))) => Ok(Some(Err(e@))),
        Ok(None) => Ok(None),
        Err(e) => Err(e@),
    }
}

impl AwaitSession {
    /// The step after the store was asked for the session.
    pub open spec fn next(
        self,
        reply: Result<Option<Result<Session, Seq<char>>>, Failure>,
    ) -> Stage {
        match reply {
            Err(e) => Stage::Failed(e),
            Ok(None) => Stage::Failed(
                Failure::Crypto("No session found and message is not an X3DH initial"@),
            ),
            Ok(Some(Err(e))) => Stage::Failed(
                Failure::Storage("Session deserialize error: "@ + e),
            ),
            Ok(Some(Ok(session))) => Stage::LocalIdentity(self.incoming@, session),
        }
    }

    /// Takes the session.
    pub fn resume(self, reply: Result<Option<Result<ActiveSession, String>>, SdkError>) -> (r:
        DecryptStep)
        ensures
            r@ == self.next(session_reply(reply)),
            reply matches Ok(Some(Ok(session))) ==> r == DecryptStep::LocalIdentity(
                AwaitLocalIdentity { incoming: self.incoming, session },
            ),
            reply matches Ok(Some(Err(_))) ==> r is Failed,
            reply matches Ok(None) ==> r is Failed,
            reply matches Err(e) ==> r == DecryptStep::Failed(e),
    {
        match reply {
            Err(e) => DecryptStep::Failed(e),
            Ok(None) => DecryptStep::Failed(
                SdkError::Crypto("No session found and message is not an X3DH initial".to_owned()),
            ),
            Ok(Some(Err(e))) => DecryptStep::Failed(
                SdkError::Storage(message("Session deserialize error: ", e.as_str())),
            ),
            Ok(Some(Ok(session))) => DecryptStep::LocalIdentity(
                AwaitLocalIdentity { incoming: self.incoming, session },
            ),
        }
    }
}

/// The step after the store was asked for the local identity key, when `chance` is what the
/// ratchet draws.
pub open spec fn unwrapped(
    mail: Mail,
    session: Session,
    reply: Result<Option<(Seq<u8>, Seq<u8>)>, Failure>,
    chance: Seq<u8>,
) -> Stage {
    match reply {
        Err(e) => Stage::Failed(e),
        Ok(None) => Stage::Failed(Failure::Storage("Identity key missing"@)),
        Ok(Some(k)) => {
            let outcome = opening(
                session,
                k.1,
                b64_decoded(mail.header),
                b64_decoded(mail.ciphertext),
                chance,
            );
            match outcome.0 {
                Err(e) => Stage::Failed(e),
                Ok(p) => Stage::Save(mail.sender_id, outcome.1, p),
            }
        },
    }
}

/// Whether `stage` holds what the sender encrypted, if the message or the reply can be decrypted
/// next.
pub open spec fn reads_back(
    mail: Mail,
    session: Session,
    identity: Seq<u8>,
    stage: Stage,
) -> bool {
    &&& forall|packet: (Seq<u8>, Seq<u8>), x: Exchange, i: nat|
        decodes_to(mail.header, packet.0) && decodes_to(mail.ciphertext, packet.1)
            && #[trigger] comes_next(session, identity, packet, x, i) ==> stage is Save
            && stage->Save_0 == mail.sender_id && stage->Save_2 == x.sent[i as int].plaintext
    &&& forall|packet: (Seq<u8>, Seq<u8>), x: Exchange, j: nat|
        decodes_to(mail.header, packet.0) && decodes_to(mail.ciphertext, packet.1)
            && #[trigger] comes_back(session, identity, packet, x, j) ==> stage is Save
            && stage->Save_0 == mail.sender_id && stage->Save_2 == x.replies()[j as int].plaintext
}

impl AwaitLocalIdentity {
    /// Takes the local identity key and decrypts the message.
    pub fn resume(self, reply: Result<Option<([u8; 32], [u8; 33])>, SdkError>) -> (r: DecryptStep)
        ensures
            exists|chance: Seq<u8>|
                r@ == #[trigger] unwrapped(self.incoming@, self.session@, key_reply(reply), chance),
            reply matches Ok(Some(k)) ==> reads_back(
                self.incoming@,
                self.session@,
                k.1@,
                r@,
            ),
    {
        let ghost mail = self.incoming@;
        let ghost session_before = self.session@;
        let ghost answer = key_reply(reply);
        let key = match reply {
            Ok(Some(k)) => k,
            Ok(None) => {
                let r = DecryptStep::Failed(SdkError::Storage("Identity key missing".to_owned()));
                assert(r@ == unwrapped(mail, session_before, answer, Seq::empty()));
                return r;
            },
            Err(e) => {
                let r = DecryptStep::Failed(e);
                assert(r@ == unwrapped(mail, session_before, answer, Seq::empty()));
                return r;
            },
        };
        let header = b64_decode(self.incoming.header.as_str());
        let ciphertext = b64_decode(self.incoming.ciphertext.as_str());
        let mut session = self.session;
        let outcome = session.open(&key.1, header, ciphertext);
        let ghost chance = choose|chance: Seq<u8>|
            (crate::session::plaintext_view(outcome), session@) == #[trigger] opening(
                session_before,
                key.1@,
                b64_decoded(mail.header),
                b64_decoded(mail.ciphertext),
                chance,
            );
        let r = match outcome {
            Ok(plaintext) => DecryptStep::Save(
                AwaitSave { sender_id: self.incoming.sender_id, session, plaintext },
            ),
            Err(e) => DecryptStep::Failed(e),
        };
        assert(r@ == unwrapped(mail, session_before, answer, chance));
        r
    }
}

/// The contents of a store's answer to a write.
pub open spec fn saved_view(reply: Result<(), SdkError>) -> Result<(), Failure> {
    match reply {
        Ok(_) => Ok(()),
        Err(e) => Err(e@),
    }
}

impl AwaitSave {
    /// The step after the store was asked to save the session. The plaintext is handed out only
    /// when the session is safe.
    pub open spec fn next(self, reply: Result<(), Failure>) -> Stage {
        match reply {
            Ok(_) => Stage::Done(self.plaintext@),
            Err(e) => Stage::Failed(e),
        }
    }

    /// Takes the outcome of saving the session.
    pub fn resume(self, reply: Result<(), SdkError>) -> (r: DecryptStep)
        ensures
            r@ == self.next(saved_view(reply)),
            reply is Ok ==> r == DecryptStep::Done(self.plaintext),
            reply matches Err(e) ==> r == DecryptStep::Failed(e),
    {
        match reply {
            Ok(_) => DecryptStep::Done(self.plaintext),
            Err(e) => DecryptStep::Failed(e),
        }
    }
}

// ---------------------------------------------------------------------------
// Laws
// ---------------------------------------------------------------------------

/// A key pair: secret and encoded public key.
pub open spec fn is_pair(k: (Seq<u8>, Seq<u8>)) -> bool {
    k.0.len() == 32 && k.1 == curve_public(k.0) && well_encoded(k.1)
}

/// The keys that a recipient has published: identity key, signed pre-key and one-time pre-key.
#[verifier::ext_equal]
pub struct Published {
    pub identity: (Seq<u8>, Seq<u8>),
    pub signed_pre_key: (Seq<u8>, Seq<u8>),
    pub one_time: Option<(u32, (Seq<u8>, Seq<u8>))>,
}

impl Published {
    /// Whether all are key pairs.
    pub open spec fn valid(self) -> bool {
        &&& is_pair(self.identity)
        &&& is_pair(self.signed_pre_key)
        &&& self.one_time matches Some(k) ==> is_pair(k.1)
    }

    /// The bundle that others see, with some signature of the signed pre-key.
    pub open spec fn bundle(self, signature: Seq<u8>) -> Bundle {
        Bundle {
            identity_key: self.identity.1,
            signed_prekey_id: SIGNED_PRE_KEY_ID,
            signed_prekey: self.signed_pre_key.1,
            signature,
            one_time_prekey: match self.one_time {
                Some(k) => Some((k.0, k.1.1)),
                None => None,
            },
        }
    }

    /// The secret of the one-time pre-key.
    pub open spec fn one_time_secret(self) -> Option<Seq<u8>> {
        match self.one_time {
            Some(k) => Some(k.1.0),
            None => None,
        }
    }
}

/// The invitation that the first envelope of a sender with the given keys holds.
pub open spec fn invite_of(
    envelope: Envelope,
    sender_ids: (Seq<char>, Seq<char>),
    identity: Seq<u8>,
    ephemeral: Seq<u8>,
    opk_id: Option<u32>,
) -> Invite {
    Invite {
        mail: mail_of(envelope, sender_ids),
        identity_key: identity,
        ephemeral_key: ephemeral,
        spk_id: SIGNED_PRE_KEY_ID,
        opk_id,
    }
}

/// The first message of a session asks the recipient for the keys that the sender used: the
/// recipient reads the sender's identity key and ephemeral key, the id of the signed pre-key and
/// the id of the one-time pre-key from it.
pub proof fn law_first_message_names_its_keys(
    payload: Seq<u8>,
    sender: (Seq<u8>, Seq<u8>),
    contact: Contact,
    ephemeral: Seq<u8>,
    seed: Seq<u8>,
    now: Result<u128, Seq<char>>,
    outcome: (Envelope, Session),
    sender_ids: (Seq<char>, Seq<char>),
)
    requires
        is_pair(sender),
        encrypts_to(
            payload,
            sender,
            None,
            Some(contact),
            ephemeral,
            seed,
            now,
            Ok(outcome),
        ),
    ensures
        first_stage(Ok(outcome.0), sender_ids) == Stage::IdentityKey(
            invite_of(
                outcome.0,
                sender_ids,
                sender.1,
                curve_public(ephemeral),
                match contact.bundle.one_time_prekey {
                    Some(k) => Some(k.0),
                    None => None,
                },
            ),
        ),
{
    law_encoded_key_is_read_back(sender.1);
    law_encoded_key_is_read_back(curve_public(ephemeral));
}

/// The exchange in which the recipient has decrypted a first message and nothing else has happened.
pub open spec fn first_exchange(
    opening: Opening,
    prekey_secret: Seq<u8>,
    first: Sealing,
    chance: Seq<u8>,
) -> Exchange {
    Exchange {
        opening,
        prekey_secret,
        sent: seq![first],
        log: seq![Turn::Hear(0, chance)],
        hearing: Seq::empty(),
    }
}

/// What a sender encrypts as the first message to a recipient's published keys, the recipient
/// decrypts: with the secrets of those keys the agreement gives the counterpart of the sender's
/// session, opening the envelope gives the payload back, and the two ends are in an exchange in
/// which the recipient has decrypted the first message.
pub proof fn law_first_message_is_read_back(
    payload: Seq<u8>,
    sender: (Seq<u8>, Seq<u8>),
    keys: Published,
    signature: Seq<u8>,
    contact: Contact,
    ephemeral: Seq<u8>,
    seed: Seq<u8>,
    now: Result<u128, Seq<char>>,
    outcome: (Envelope, Session),
    sender_ids: (Seq<char>, Seq<char>),
    settled_stage: Stage,
    chance: Seq<u8>,
    final_stage: Stage,
)
    requires
        is_pair(sender),
        keys.valid(),
        contact.bundle == keys.bundle(signature),
        encrypts_to(
            payload,
            sender,
            None,
            Some(contact),
            ephemeral,
            seed,
            now,
            Ok(outcome),
        ),
        ({
            let invite = invite_of(
                outcome.0,
                sender_ids,
                sender.1,
                curve_public(ephemeral),
                outcome.0.opk_id,
            );
            &&& settled_stage == agreed(
                invite,
                keys.identity.0,
                keys.signed_pre_key,
                keys.one_time_secret(),
            )
            &&& answers(
                invite,
                keys.identity.0,
                keys.signed_pre_key,
                keys.one_time_secret(),
                settled_stage,
            )
        }),
        settled_stage matches Stage::LocalIdentity(mail, session) ==> final_stage == unwrapped(
            mail,
            session,
            Ok(Some(keys.identity)),
            chance,
        ) && reads_back(mail, session, keys.identity.1, final_stage),
    ensures
        settled_stage is LocalIdentity,
        final_stage is Save,
        final_stage->Save_0 == sender_ids.0,
        final_stage->Save_2 == payload,
        ({
            let x = first_exchange(
                opening_with(sender.0, contact.bundle, ephemeral, seed),
                keys.signed_pre_key.0,
                Sealing { plaintext: payload, ad: sender.1 + keys.identity.1 },
                chance,
            );
            &&& x.valid()
            &&& outcome.1.ratchet == x.initiator()
            &&& final_stage->Save_1.ratchet == x.responder()
        }),
        outcome.1.remote_identity == keys.identity.1,
        final_stage->Save_1.remote_identity == sender.1,
        final_stage->Save_1.remote_user_id == sender_ids.0,
        final_stage->Save_1.remote_device_id == sender_ids.1,
{
    let session = settled_stage->LocalIdentity_1;
    let o = opening_with(sender.0, contact.bundle, ephemeral, seed);
    let none = Seq::<Sealing>::empty();
    let first = Sealing { plaintext: payload, ad: sender.1 + keys.identity.1 };
    let one = seq![first];
    let packet = sealed(o.speaker(none), payload, first.ad).0->Ok_0;
    law_b64_is_read_back(packet.0);
    law_b64_is_read_back(packet.1);
    assert(contact.bundle.one_time_key() == optional_public(keys.one_time_secret()));
    assert(one.drop_last() =~= none);
    assert(one.take(0) =~= none);
    reveal_with_fuel(Opening::speaker, 2);
    let x = Exchange {
        opening: o,
        prekey_secret: keys.signed_pre_key.0,
        sent: one,
        log: Seq::empty(),
        hearing: Seq::empty(),
    };
    assert(o.packet(one, 0) == x.packet(0));
    lemma_sequence(x.heard());
    lemma_sequence(x.heard().push(0));
    assert(comes_next(session, keys.identity.1, packet, x, 0));
    lemma_hearing_one_more(x, 0, chance);
    assert(x.log.push(Turn::Hear(0, chance)) =~= seq![Turn::Hear(0, chance)]);
}

/// Whether the numbers are those of the first messages, one after the other.
pub open spec fn in_sequence(order: Seq<nat>) -> bool {
    forall|k: int| 0 <= k < order.len() ==> #[trigger] order[k] == k
}

/// A chain that decrypts its messages one after the other stores no keys and can go on.
proof fn lemma_sequence(order: Seq<nat>)
    requires
        in_sequence(order),
    ensures
        chain_after(order) == (order.len(), Set::<int>::empty()),
        order.len() <= chain_limit() ==> orderly(order),
    decreases order.len(),
{
    if order.len() > 0 {
        let before = order.drop_last();
        assert(in_sequence(before)) by {
            assert forall|k: int| 0 <= k < before.len() implies #[trigger] before[k] == k by {
                assert(order[k] == k);
            }
        }
        lemma_sequence(before);
        let i = order.len() - 1;
        assert(order[i] == i);
        assert(Set::<int>::empty().union(set_int_range(i, i)) =~= Set::<int>::empty());
        assert(!before.contains(order.last())) by {
            if before.contains(order.last()) {
                let k = before.index_of(order.last());
                assert(order[k] == k);
            }
        }
    }
}

/// There is a packet for every reply.
proof fn lemma_packet_for_every_reply(
    o: Opening,
    prekey_secret: Seq<u8>,
    sent: Seq<Sealing>,
    log: Seq<Turn>,
)
    ensures
        o.reply_packets(prekey_secret, sent, log).len() == replies_in(log).len(),
    decreases log.len(),
{
    if log.len() > 0 {
        lemma_packet_for_every_reply(o, prekey_secret, sent, log.drop_last());
    }
}

/// The initiator's state does not depend on turns of the responder that come later.
proof fn lemma_later_turn(
    o: Opening,
    prekey_secret: Seq<u8>,
    sent: Seq<Sealing>,
    log: Seq<Turn>,
    turn: Turn,
    hearing: Seq<(nat, Seq<u8>)>,
)
    requires
        forall|k: int|
            0 <= k < numbers_of(hearing).len() ==> #[trigger] numbers_of(hearing)[k] < replies_in(
                log,
            ).len(),
    ensures
        o.initiator(prekey_secret, sent, log.push(turn), hearing) == o.initiator(
            prekey_secret,
            sent,
            log,
            hearing,
        ),
    decreases hearing.len(),
{
    if hearing.len() > 0 {
        let rest = hearing.drop_last();
        let all = numbers_of(hearing);
        assert(all[all.len() - 1] == hearing.last().0);
        assert forall|k: int| 0 <= k < numbers_of(rest).len() implies #[trigger] numbers_of(rest)[k]
            < replies_in(log).len() by {
            assert(all[k] == numbers_of(rest)[k]);
        }
        lemma_later_turn(o, prekey_secret, sent, log, turn, rest);
        assert(log.push(turn).drop_last() =~= log);
        lemma_packet_for_every_reply(o, prekey_secret, sent, log);
    }
}

/// What the responder does with earlier messages does not depend on messages that come later.
proof fn lemma_later_message(
    o: Opening,
    prekey_secret: Seq<u8>,
    sent: Seq<Sealing>,
    message: Sealing,
    log: Seq<Turn>,
)
    requires
        forall|k: int|
            0 <= k < heard_in(log).len() ==> #[trigger] heard_in(log)[k] < sent.len(),
    ensures
        o.responder(prekey_secret, sent.push(message), log) == o.responder(
            prekey_secret,
            sent,
            log,
        ),
        o.reply_packets(prekey_secret, sent.push(message), log) == o.reply_packets(
            prekey_secret,
            sent,
            log,
        ),
    decreases log.len(),
{
    if log.len() > 0 {
        let rest = log.drop_last();
        let all = heard_in(log);
        assert forall|k: int| 0 <= k < heard_in(rest).len() implies #[trigger] heard_in(rest)[k]
            < sent.len() by {
            assert(all[k] == heard_in(rest)[k]);
        }
        lemma_later_message(o, prekey_secret, sent, message, rest);
        if let Turn::Hear(i, _) = log.last() {
            assert(all[all.len() - 1] == i);
            assert(sent.push(message).take(i as int) =~= sent.take(i as int));
        }
    }
}

/// An exchange goes on when the responder decrypts a message that it expects.
proof fn lemma_hearing_one_more(x: Exchange, i: nat, chance: Seq<u8>)
    requires
        x.valid(),
        x.expects(i),
    ensures
        ({
            let y = Exchange { log: x.log.push(Turn::Hear(i, chance)), ..x };
            &&& y.valid()
            &&& y.initiator() == x.initiator()
            &&& y.heard() == x.heard().push(i)
            &&& y.replies() == x.replies()
            &&& x.packet(i) matches Ok(p) && y.responder() == opened(
                x.responder(),
                p.0,
                p.1,
                x.sent[i as int].ad,
                chance,
            ).1
        }),
{
    let turn = Turn::Hear(i, chance);
    let y = Exchange { log: x.log.push(turn), ..x };
    assert(y.log.drop_last() =~= x.log);
    assert(x.opening.packet(x.sent, i as int) is Ok);
    lemma_later_turn(x.opening, x.prekey_secret, x.sent, x.log, turn, x.hearing);
    if x.log.len() > 0 {
        assert(y.log[0] == x.log[0]);
    }
    assert forall|k: int| 0 <= k < y.heard().len() implies #[trigger] y.heard()[k]
        < y.sent.len() by {
        if k < x.heard().len() {
            assert(y.heard()[k] == x.heard()[k]);
        }
    }
}

/// Whether an envelope holds a packet.
pub open spec fn carries(
    envelope: Envelope,
    packet: Result<(Seq<u8>, Seq<u8>), Seq<char>>,
) -> bool {
    packet matches Ok(p) && envelope.header == b64(p.0) && envelope.ciphertext == b64(p.1)
}

/// What the sender encrypts before it has decrypted a reply joins the exchange as its next message,
/// and the recipient's state stays as it is.
pub proof fn law_messages_join_the_exchange(
    payload: Seq<u8>,
    sender: (Seq<u8>, Seq<u8>),
    session: Session,
    contact: Option<Contact>,
    ephemeral: Seq<u8>,
    seed: Seq<u8>,
    now: Result<u128, Seq<char>>,
    outcome: (Envelope, Session),
    x: Exchange,
    sender_ids: (Seq<char>, Seq<char>),
)
    requires
        x.valid(),
        x.hearing.len() == 0,
        session.ratchet == x.initiator(),
        encrypts_to(
            payload,
            sender,
            Some(session),
            contact,
            ephemeral,
            seed,
            now,
            Ok(outcome),
        ),
    ensures
        first_stage(Ok(outcome.0), sender_ids) == Stage::Session(mail_of(outcome.0, sender_ids)),
        ({
            let message = Sealing { plaintext: payload, ad: session.outgoing_ad(sender.1) };
            let y = Exchange { sent: x.sent.push(message), ..x };
            &&& y.valid()
            &&& outcome.1.ratchet == y.initiator()
            &&& y.responder() == x.responder()
            &&& carries(outcome.0, y.packet(x.sent.len()))
            &&& y.heard() == x.heard()
            &&& forall|i: nat| #[trigger] x.expects(i) ==> y.expects(i) && y.packet(i) == x.packet(i)
        }),
{
    let message = Sealing { plaintext: payload, ad: session.outgoing_ad(sender.1) };
    let y = Exchange { sent: x.sent.push(message), ..x };
    let n = x.sent.len();
    assert(y.sent.drop_last() =~= x.sent);
    assert(y.sent.take(n as int) =~= x.sent);
    lemma_later_message(x.opening, x.prekey_secret, x.sent, message, x.log);
    assert(y.packet(n) is Ok);
    assert forall|i: int| 0 <= i < y.sent.len() implies #[trigger] y.opening.packet(
        y.sent,
        i,
    ) is Ok by {
        if i < n {
            assert(y.sent.take(i) =~= x.sent.take(i));
            assert(x.opening.packet(x.sent, i) is Ok);
        }
    }
    assert forall|i: nat| #[trigger] x.expects(i) implies y.expects(i) && y.packet(i)
        == x.packet(i) by {
        assert(y.sent.take(i as int) =~= x.sent.take(i as int));
    }
    assert forall|k: int| 0 <= k < y.heard().len() implies #[trigger] y.heard()[k]
        < y.sent.len() by {
        assert(x.heard()[k] < x.sent.len());
    }
}

/// Every message of the exchange is read back, in any order within the limits: when the recipient
/// expects it, the envelope that carries it is decrypted to what the sender encrypted, and the
/// exchange goes on with one message more decrypted. Where messages were overtaken the recipient's
/// session has to have a JSON form, as any session does that was saved.
pub proof fn law_messages_are_read_back(
    x: Exchange,
    i: nat,
    envelope: Envelope,
    session: Session,
    recipient: (Seq<u8>, Seq<u8>),
    sender_ids: (Seq<char>, Seq<char>),
    chance: Seq<u8>,
    final_stage: Stage,
)
    requires
        x.valid(),
        x.expects(i),
        carries(envelope, x.packet(i)),
        session.ratchet == x.responder(),
        session.incoming_ad(recipient.1) == x.sent[i as int].ad,
        chain_after(x.heard()).1 == Set::<int>::empty() || received_count(session.ratchet) is Ok,
        final_stage == unwrapped(
            mail_of(envelope, sender_ids),
            session,
            Ok(Some(recipient)),
            chance,
        ),
        reads_back(mail_of(envelope, sender_ids), session, recipient.1, final_stage),
    ensures
        final_stage is Save,
        final_stage->Save_0 == sender_ids.0,
        final_stage->Save_2 == x.sent[i as int].plaintext,
        final_stage->Save_1.remote_identity == session.remote_identity,
        ({
            let y = Exchange { log: x.log.push(Turn::Hear(i, chance)), ..x };
            &&& y.valid()
            &&& final_stage->Save_1.ratchet == y.responder()
            &&& y.initiator() == x.initiator()
        }),
{
    let packet = x.packet(i)->Ok_0;
    law_b64_is_read_back(packet.0);
    law_b64_is_read_back(packet.1);
    assert(comes_next(session, recipient.1, packet, x, i));
    lemma_hearing_one_more(x, i, chance);
}

/// As long as messages come in the order in which they were sent, the recipient expects the next one,
/// up to the limit of the chain, and needs nothing for it but its session: no keys are stored. The
/// same holds of the sender and the replies.
pub proof fn law_next_message_is_expected(x: Exchange)
    ensures
        in_sequence(x.heard()) ==> chain_after(x.heard()).1 == Set::<int>::empty(),
        in_sequence(x.heard()) && x.heard().len() < x.sent.len() && x.heard().len() < chain_limit()
            ==> x.expects(x.heard().len()) && in_sequence(x.heard().push(x.heard().len())),
        in_sequence(x.replies_heard()) ==> chain_after(x.replies_heard()).1 == Set::<int>::empty(),
        in_sequence(x.replies_heard()) && x.replies_heard().len() < x.replies().len()
            && x.replies_heard().len() < chain_limit() ==> x.expects_reply(x.replies_heard().len())
            && in_sequence(x.replies_heard().push(x.replies_heard().len())),
{
    if in_sequence(x.heard()) {
        lemma_sequence(x.heard());
        lemma_sequence(x.heard().push(x.heard().len()));
    }
    if in_sequence(x.replies_heard()) {
        lemma_sequence(x.replies_heard());
        lemma_sequence(x.replies_heard().push(x.replies_heard().len()));
    }
}

/// A message that was not decrypted yet is expected, up to the limit of the chain, if it was
/// overtaken and its key is stored, or if it lies within reach of the counter and the keys of the
/// messages in between fit beside the stored ones.
pub proof fn law_overtaken_messages_are_expected(x: Exchange, i: nat)
    requires
        x.valid(),
        i < x.sent.len(),
        !x.heard().contains(i),
        x.heard().len() < chain_limit(),
        ({
            let (count, stored) = chain_after(x.heard());
            stored.contains(i as int) || (i <= count + skip_limit() && stored.len() + i
                <= store_limit() + count)
        }),
    ensures
        x.expects(i),
{
    let (count, stored) = chain_after(x.heard());
    let order = x.heard().push(i);
    assert(order.drop_last() =~= x.heard());
    lemma_stored(x.heard());
    lemma_passed(x.heard(), i);
    if !stored.contains(i as int) && i > count {
        let range = set_int_range(count as int, i - 1);
        vstd::set_lib::lemma_int_range(count as int, i - 1);
        vstd::set_lib::lemma_len_union(stored, range);
    }
}

/// The stored keys can be counted.
proof fn lemma_stored(order: Seq<nat>)
    ensures
        chain_after(order).1.finite(),
    decreases order.len(),
{
    if order.len() > 0 {
        lemma_stored(order.drop_last());
        let count = chain_after(order.drop_last()).0;
        let i = order.last();
        if count <= i {
            vstd::set_lib::lemma_int_range(count as int, i as int);
        } else {
            assert(set_int_range(count as int, i as int) =~= Set::<int>::empty());
        }
    }
}

/// What lies behind the counter was decrypted or has its key stored.
proof fn lemma_passed(order: Seq<nat>, i: nat)
    requires
        orderly(order),
    ensures
        i < chain_after(order).0 ==> order.contains(i) || chain_after(order).1.contains(i as int),
    decreases order.len(),
{
    if order.len() > 0 {
        let before = order.drop_last();
        lemma_passed(before, i);
        if before.contains(i) {
            assert(order[before.index_of(i)] == i);
        }
        assert(order[order.len() - 1] == order.last());
        lemma_passed(before, order.last());
    }
}

/// What the recipient encrypts once it has decrypted a message joins the exchange as its next reply,
/// and the sender's state stays as it is.
pub proof fn law_replies_join_the_exchange(
    payload: Seq<u8>,
    replier: (Seq<u8>, Seq<u8>),
    session: Session,
    contact: Option<Contact>,
    ephemeral: Seq<u8>,
    seed: Seq<u8>,
    now: Result<u128, Seq<char>>,
    outcome: (Envelope, Session),
    x: Exchange,
    replier_ids: (Seq<char>, Seq<char>),
)
    requires
        x.valid(),
        x.log.len() > 0,
        session.ratchet == x.responder(),
        encrypts_to(
            payload,
            replier,
            Some(session),
            contact,
            ephemeral,
            seed,
            now,
            Ok(outcome),
        ),
    ensures
        first_stage(Ok(outcome.0), replier_ids) == Stage::Session(mail_of(outcome.0, replier_ids)),
        ({
            let reply = Sealing { plaintext: payload, ad: session.outgoing_ad(replier.1) };
            let y = Exchange { log: x.log.push(Turn::Reply(reply)), ..x };
            &&& y.valid()
            &&& outcome.1.ratchet == y.responder()
            &&& y.initiator() == x.initiator()
            &&& y.replies() == x.replies().push(reply)
            &&& carries(outcome.0, y.reply_packet(x.replies().len()))
            &&& forall|j: nat| #[trigger]
                x.expects_reply(j) ==> y.expects_reply(j) && y.reply_packet(j) == x.reply_packet(j)
        }),
{
    let reply = Sealing { plaintext: payload, ad: session.outgoing_ad(replier.1) };
    let turn = Turn::Reply(reply);
    let y = Exchange { log: x.log.push(turn), ..x };
    assert(y.log.drop_last() =~= x.log);
    assert(y.log[0] == x.log[0]);
    lemma_packet_for_every_reply(x.opening, x.prekey_secret, x.sent, x.log);
    lemma_later_turn(x.opening, x.prekey_secret, x.sent, x.log, turn, x.hearing);
    let packets = x.opening.reply_packets(x.prekey_secret, x.sent, x.log);
    let more = y.opening.reply_packets(y.prekey_secret, y.sent, y.log);
    assert forall|j: int| 0 <= j < more.len() implies #[trigger] more[j] is Ok by {
        if j < packets.len() {
            assert(more[j] == packets[j]);
        }
    }
    assert forall|k: int| 0 <= k < y.replies_heard().len() implies #[trigger] y.replies_heard()[k]
        < y.replies().len() by {
        assert(x.replies_heard()[k] < x.replies().len());
    }
}

/// Every reply of the exchange is read back, in any order within the limits: when the sender expects
/// it, the envelope that carries it is decrypted to what the recipient encrypted, and the exchange
/// goes on with one reply more decrypted. Where replies were overtaken the sender's session has to
/// have a JSON form, as any session does that was saved.
pub proof fn law_replies_are_read_back(
    x: Exchange,
    j: nat,
    envelope: Envelope,
    session: Session,
    hearer: (Seq<u8>, Seq<u8>),
    replier_ids: (Seq<char>, Seq<char>),
    draw: Seq<u8>,
    final_stage: Stage,
)
    requires
        x.valid(),
        x.expects_reply(j),
        carries(envelope, x.reply_packet(j)),
        session.ratchet == x.initiator(),
        session.incoming_ad(hearer.1) == x.replies()[j as int].ad,
        chain_after(x.replies_heard()).1 == Set::<int>::empty() || received_count(
            session.ratchet,
        ) is Ok,
        final_stage == unwrapped(
            mail_of(envelope, replier_ids),
            session,
            Ok(Some(hearer)),
            draw,
        ),
        reads_back(mail_of(envelope, replier_ids), session, hearer.1, final_stage),
    ensures
        final_stage is Save,
        final_stage->Save_0 == replier_ids.0,
        final_stage->Save_2 == x.replies()[j as int].plaintext,
        final_stage->Save_1.remote_identity == session.remote_identity,
        ({
            let y = Exchange { hearing: x.hearing.push((j, draw)), ..x };
            &&& y.valid()
            &&& final_stage->Save_1.ratchet == y.initiator()
            &&& y.responder() == x.responder()
        }),
{
    let packet = x.reply_packet(j)->Ok_0;
    law_b64_is_read_back(packet.0);
    law_b64_is_read_back(packet.1);
    assert(comes_back(session, hearer.1, packet, x, j));
    let y = Exchange { hearing: x.hearing.push((j, draw)), ..x };
    assert(y.hearing.drop_last() =~= x.hearing);
    assert(y.replies_heard() =~= x.replies_heard().push(j));
    assert forall|k: int| 0 <= k < y.replies_heard().len() implies #[trigger] y.replies_heard()[k]
        < y.replies().len() by {
        if k < x.replies_heard().len() {
            assert(y.replies_heard()[k] == x.replies_heard()[k]);
        }
    }
}

/// A one-time pre-key is consumed only for a message that starts a session, and only when the
/// other keys are there; a plaintext is handed out only when the advanced session was saved.
pub proof fn law_keys_before_consumption_and_save_before_plaintext(
    wait: AwaitSignedPreKey,
    key: Result<Option<(Seq<u8>, Seq<u8>)>, Failure>,
    save: AwaitSave,
    saved: Result<(), Failure>,
)
    ensures
        wait.next(key) matches Stage::OneTimePreKey(_, _, k, id) ==> key == Ok::<
            Option<(Seq<u8>, Seq<u8>)>,
            Failure,
        >(Some(k)) && wait.invitation.opk_id == Some(id),
        match save.next(saved) {
            Stage::Done(p) => saved is Ok && p == save.plaintext@,
            Stage::Failed(e) => saved == Err::<(), Failure>(e),
            _ => false,
        },
{
}

/// What kind of message an envelope holds: with an identity key and an ephemeral key it starts a
/// session, and the recipient goes on with exactly those keys, with the pre-keys that the envelope
/// names and with the header and the ciphertext as they are; keys that cannot be read are refused. Any
/// other envelope belongs to a session that the recipient has. What is not an envelope is refused.
pub proof fn law_envelopes_are_taken_up_as_they_are(
    payload: EncryptedPayload,
    sender: (Seq<char>, Seq<char>),
    complaint: Seq<char>,
    r: DecryptStep,
)
    requires
        r@ == first_stage(Ok(payload@), sender),
    ensures
        payload.identity_key is Some && payload.ephemeral_key is Some ==> {
            let ik = key_of(b64_decoded(payload.identity_key->0@));
            let ek = key_of(b64_decoded(payload.ephemeral_key->0@));
            match r {
                DecryptStep::IdentityKey(s) => {
                    &&& ik == Ok::<Seq<u8>, Failure>(s.invitation.identity_key@)
                    &&& ek == Ok::<Seq<u8>, Failure>(s.invitation.ephemeral_key@)
                    &&& payload.spk_id matches Some(id) ==> s.invitation.spk_id == id
                    &&& payload.spk_id is None ==> s.invitation.spk_id == SIGNED_PRE_KEY_ID
                    &&& s.invitation.opk_id == payload.opk_id
                    &&& s.invitation.incoming.header@ == payload.header@
                    &&& s.invitation.incoming.ciphertext@ == payload.ciphertext@
                    &&& s.invitation.incoming.sender_id@ == sender.0
                    &&& s.invitation.incoming.sender_device_id@ == sender.1
                },
                DecryptStep::Failed(e) => ik is Err && e@ == ik->Err_0 || ik is Ok && ek is Err
                    && e@ == ek->Err_0,
                _ => false,
            }
        },
        payload.identity_key is None || payload.ephemeral_key is None ==> (r matches
            DecryptStep::Session(s) && {
            &&& s.incoming.header@ == payload.header@
            &&& s.incoming.ciphertext@ == payload.ciphertext@
            &&& s.incoming.sender_id@ == sender.0
            &&& s.incoming.sender_device_id@ == sender.1
        }),
        first_stage(Err(complaint), sender) == Stage::Failed(
            Failure::Crypto("Invalid payload json: "@ + complaint),
        ),
{
}

/// The keys that a store gives out reach the agreement, each in its place: the secret of the identity
/// key, the signed pre-key and, if the message names a one-time pre-key and the store has it, that one's
/// secret. The message stays as it was.
pub proof fn law_keys_reach_the_agreement(
    start: AwaitIdentityKey,
    identity: (Seq<u8>, Seq<u8>),
    signed_pre_key: (Seq<u8>, Seq<u8>),
    one_time: Option<(Seq<u8>, Seq<u8>)>,
    r1: DecryptStep,
    r2: DecryptStep,
    r3: DecryptStep,
)
    requires
        r1@ == start.next(Ok(Some(identity))),
        r1 matches DecryptStep::SignedPreKey(s) ==> r2@ == s.next(Ok(Some(signed_pre_key))),
        match r2 {
            DecryptStep::OneTimePreKey(s) => r3@ == s.next(Ok(one_time)),
            _ => r3 == r2,
        },
    ensures
        r1 matches DecryptStep::SignedPreKey(s) && s.invitation.spk_id == start.invitation.spk_id,
        start.invitation.opk_id matches Some(id) ==> r2 matches DecryptStep::OneTimePreKey(s)
            && s.opk_id == id,
        start.invitation.opk_id is None ==> r2 is Agree,
        r3 matches DecryptStep::Agree(g) && {
            &&& g.invitation@ == start.invitation@
            &&& g.identity_secret@ == identity.0
            &&& g.signed_pre_key.0@ == signed_pre_key.0
            &&& g.signed_pre_key.1@ == signed_pre_key.1
            &&& match (start.invitation.opk_id, one_time, g.one_time_secret) {
                (Some(_), Some(k), Some(secret)) => secret@ == k.0,
                (Some(_), None, None) => true,
                (None, _, None) => true,
                _ => false,
            }
        },
{
}

/// A message of an existing session is opened in that session: the steps hand the stored session and the
/// message on as they are, open the message with the public identity key, ask for the session to be
/// saved under the sender's user id as opening has left it, and hand out what opening gave.
pub proof fn law_message_is_opened_in_its_session(
    start: AwaitSession,
    session: Session,
    identity: (Seq<u8>, Seq<u8>),
    chance: Seq<u8>,
    r1: DecryptStep,
    r2: DecryptStep,
    r3: DecryptStep,
)
    requires
        r1@ == start.next(Ok(Some(Ok(session)))),
        r1 matches DecryptStep::LocalIdentity(l) ==> r2@ == unwrapped(
            l.incoming@,
            l.session@,
            Ok(Some(identity)),
            chance,
        ),
        match r2 {
            DecryptStep::Save(s) => r3@ == s.next(Ok(())),
            _ => r3 == r2,
        },
    ensures
        r1 matches DecryptStep::LocalIdentity(l) && l.session@ == session,
        ({
            let outcome = opening(
                session,
                identity.1,
                b64_decoded(start.incoming.header@),
                b64_decoded(start.incoming.ciphertext@),
                chance,
            );
            match outcome.0 {
                Ok(p) => {
                    &&& r2 matches DecryptStep::Save(s) && s.sender_id@ == start.incoming.sender_id@
                        && s.session@ == outcome.1
                    &&& r3 matches DecryptStep::Done(q) && q@ == p
                },
                Err(e) => r3 matches DecryptStep::Failed(f) && f@ == e,
            }
        }),
{
}

/// Decryption stops at the first thing that goes wrong, and reports it.
pub proof fn law_decryption_failures_are_reported(
    identity: AwaitIdentityKey,
    signed: AwaitSignedPreKey,
    one_time: AwaitOneTimePreKey,
    session: AwaitSession,
    mail: Mail,
    stored: Session,
    chance: Seq<u8>,
    save: AwaitSave,
    e: Failure,
    text: Seq<char>,
)
    ensures
        identity.next(Err(e)) == Stage::Failed(e),
        signed.next(Err(e)) == Stage::Failed(e),
        one_time.next(Err(e)) == Stage::Failed(e),
        session.next(Err(e)) == Stage::Failed(e),
        unwrapped(mail, stored, Err(e), chance) == Stage::Failed(e),
        save.next(Err(e)) == Stage::Failed(e),
        identity.next(Ok(None)) == Stage::Failed(Failure::Storage("Identity key missing"@)),
        signed.next(Ok(None)) == Stage::Failed(Failure::Storage("SPK missing"@)),
        unwrapped(mail, stored, Ok(None), chance) == Stage::Failed(
            Failure::Storage("Identity key missing"@),
        ),
        session.next(Ok(None)) == Stage::Failed(
            Failure::Crypto("No session found and message is not an X3DH initial"@),
        ),
        session.next(Ok(Some(Err(text)))) == Stage::Failed(
            Failure::Storage("Session deserialize error: "@ + text),
        ),
{
}

/// An agreement fails exactly when a key of the sender is refused or the own signed pre-key cannot be
/// read. The session that it gives is with the device that has sent the message, under the identity key
/// in the message.
pub proof fn law_agreement_is_with_the_sender(
    invite: Invite,
    signed_pre_key: (Seq<u8>, Seq<u8>),
    secret: Result<Seq<u8>, X3DHError>,
    r: DecryptStep,
)
    requires
        signed_pre_key.1.len() == 33,
        r@ == settled(invite, signed_pre_key, secret),
    ensures
        match (r, secret) {
            (DecryptStep::LocalIdentity(l), Ok(s)) => {
                &&& signed_pre_key.1[0] == 5
                &&& l.incoming@ == invite.mail
                &&& l.session.ratchet_state == receiver_state(
                    s,
                    signed_pre_key.0,
                    signed_pre_key.1.skip(1),
                )
                &&& l.session.remote_identity_pub@ == invite.identity_key
                &&& l.session.remote_user_id@ == invite.mail.sender_id
                &&& l.session.remote_device_id@ == invite.mail.sender_device_id
            },
            (DecryptStep::Failed(e), Err(x)) => e@ == Failure::X3dh(x),
            (DecryptStep::Failed(e), Ok(_)) => signed_pre_key.1[0] != 5 && e@ == Failure::Crypto(
                "Invalid SPK pub"@,
            ),
            _ => false,
        },
{
}

}
