//! Sessions with contacts and the encryption of outgoing messages.
use libsignal_dezire::ratchet::RatchetState;
use vstd::prelude::*;
use vstd::string::*;

use crate::encoding::{b64, b64_decoded, b64_encode, bytes_or_text, law_b64_is_read_back};
use crate::encoding::{millis_at, millis_view, unix_millis};
use crate::error::{message, Failure, SdkError, X3DHError};
use crate::signal::{all_readable, any_refused, bundle_fault, bundle_keys, decode_public_key};
use crate::signal::{chain_after, curve_public, init_sender_state, opened, prekey_verifies};
use crate::signal::{ratchet_decrypt, ratchet_encrypt, ratchet_received, received_count};
use crate::signal::{count_view, refused, sealed, sender_state, RECEIVE_LIMIT};
use crate::signal::{vxeddsa_verified, well_encoded, x3dh_initiate, x3dh_secret};
use crate::signal::{Bundle, Exchange, Opening, PreKeyBundle, Sealing, SIGNED_PRE_KEY_ID};

verus! {

// ---------------------------------------------------------------------------
// Envelopes and sessions
// ---------------------------------------------------------------------------

/// An encrypted message as it travels to the recipient.
pub struct EncryptedPayload {
    /// The ciphertext in base64.
    pub ciphertext: String,
    /// The encrypted ratchet header in base64.
    pub header: String,
    /// Milliseconds since the Unix epoch.
    pub timestamp: u64,
    /// The sender's identity key in base64, in the first message of a session.
    pub identity_key: Option<String>,
    /// The sender's ephemeral key in base64, in the first message of a session.
    pub ephemeral_key: Option<String>,
    /// The id of the signed pre-key that the session starts from.
    pub spk_id: Option<u32>,
    /// The id of the one-time pre-key that the session consumes.
    pub opk_id: Option<u32>,
}

/// The contents of an [`EncryptedPayload`].
#[verifier::ext_equal]
pub struct Envelope {
    pub ciphertext: Seq<char>,
    pub header: Seq<char>,
    pub timestamp: u64,
    pub identity_key: Option<Seq<char>>,
    pub ephemeral_key: Option<Seq<char>>,
    pub spk_id: Option<u32>,
    pub opk_id: Option<u32>,
}

/// The contents of a text that may be absent.
pub open spec fn optional_text(s: Option<String>) -> Option<Seq<char>> {
    match s {
        Some(s) => Some(s@),
        None => None,
    }
}

impl View for EncryptedPayload {
    type V = Envelope;

    open spec fn view(&self) -> Envelope {
        Envelope {
            ciphertext: self.ciphertext@,
            header: self.header@,
            timestamp: self.timestamp,
            identity_key: optional_text(self.identity_key),
            ephemeral_key: optional_text(self.ephemeral_key),
            spk_id: self.spk_id,
            opk_id: self.opk_id,
        }
    }
}

/// A Double Ratchet session with a contact.
pub struct ActiveSession {
    pub ratchet_state: RatchetState,
    pub remote_identity_pub: Vec<u8>,
    pub remote_user_id: String,
    pub remote_device_id: String,
}

/// The contents of an [`ActiveSession`].
#[verifier::ext_equal]
pub struct Session {
    pub ratchet: RatchetState,
    pub remote_identity: Seq<u8>,
    pub remote_user_id: Seq<char>,
    pub remote_device_id: Seq<char>,
}

impl View for ActiveSession {
    type V = Session;

    open spec fn view(&self) -> Session {
        Session {
            ratchet: self.ratchet_state,
            remote_identity: self.remote_identity_pub@,
            remote_user_id: self.remote_user_id@,
            remote_device_id: self.remote_device_id@,
        }
    }
}

/// The associated data of a message: the sender's identity key, then the receiver's.
pub fn construct_ad(sender_id_pub: &[u8], receiver_id_pub: &[u8]) -> (r: Vec<u8>)
    ensures
        r@ == sender_id_pub@ + receiver_id_pub@,
{
    let mut ad: Vec<u8> = Vec::new();
    ad.extend_from_slice(sender_id_pub);
    ad.extend_from_slice(receiver_id_pub);
    assert(ad@ =~= sender_id_pub@ + receiver_id_pub@);
    ad
}

// ---------------------------------------------------------------------------
// Starting a session
// ---------------------------------------------------------------------------

/// What the first message of a session tells the recipient.
pub struct Introduction {
    pub identity_key: String,
    pub ephemeral_key: String,
    pub opk_id: Option<u32>,
}

/// The contents of an [`Introduction`].
#[verifier::ext_equal]
pub struct Intro {
    pub identity_key: Seq<char>,
    pub ephemeral_key: Seq<char>,
    pub opk_id: Option<u32>,
}

impl View for Introduction {
    type V = Intro;

    open spec fn view(&self) -> Intro {
        Intro {
            identity_key: self.identity_key@,
            ephemeral_key: self.ephemeral_key@,
            opk_id: self.opk_id,
        }
    }
}

/// The contact that a session is started with: user id, device id and keys.
#[verifier::ext_equal]
pub struct Contact {
    pub user_id: Seq<char>,
    pub device_id: Seq<char>,
    pub bundle: Bundle,
}

/// The contents of a contact.
pub open spec fn contact_view(contact: (String, String, PreKeyBundle)) -> Contact {
    Contact { user_id: contact.0@, device_id: contact.1@, bundle: contact.2@ }
}

/// The id of a one-time pre-key that may be absent.
pub open spec fn opk_id(opk: Option<(u32, Seq<u8>)>) -> Option<u32> {
    match opk {
        Some(k) => Some(k.0),
        None => None,
    }
}

/// The session with `contact` around a ratchet state.
pub open spec fn session_with(contact: Contact, ratchet: RatchetState) -> Session {
    Session {
        ratchet,
        remote_identity: contact.bundle.identity_key,
        remote_user_id: contact.user_id,
        remote_device_id: contact.device_id,
    }
}

/// The introduction of a sender with the given public keys to `contact`.
pub open spec fn intro_to(contact: Contact, identity: Seq<u8>, ephemeral: Seq<u8>) -> Intro {
    Intro {
        identity_key: b64(identity),
        ephemeral_key: b64(ephemeral),
        opk_id: opk_id(contact.bundle.one_time_prekey),
    }
}

/// Puts a session together from a key agreement's ephemeral key and a ratchet state.
pub fn introduce(
    contact: (String, String, PreKeyBundle),
    identity_public: &[u8; 33],
    ephemeral_public: &[u8; 33],
    ratchet_state: RatchetState,
) -> (r: (ActiveSession, Introduction))
    ensures
        r.0@ == session_with(contact_view(contact), ratchet_state),
        r.1@ == intro_to(contact_view(contact), identity_public@, ephemeral_public@),
{
    let (remote_user_id, remote_device_id, bundle) = contact;
    let mut remote_identity_pub: Vec<u8> = Vec::new();
    remote_identity_pub.extend_from_slice(&bundle.identity_key);
    assert(remote_identity_pub@ =~= bundle.identity_key@);
    let opk_id = match &bundle.one_time_prekey {
        Some(opk) => Some(opk.id),
        None => None,
    };
    let session = ActiveSession {
        ratchet_state,
        remote_identity_pub,
        remote_user_id,
        remote_device_id,
    };
    let introduction = Introduction {
        identity_key: b64_encode(identity_public),
        ephemeral_key: b64_encode(ephemeral_public),
        opk_id,
    };
    (session, introduction)
}

/// How the session starts that an initiator sets up with the published keys of a contact.
pub open spec fn opening_with(
    identity_secret: Seq<u8>,
    bundle: Bundle,
    ephemeral: Seq<u8>,
    seed: Seq<u8>,
) -> Opening {
    Opening {
        shared_secret: x3dh_secret(
            identity_secret,
            ephemeral,
            bundle.identity_key,
            bundle.signed_prekey,
            bundle.one_time_key(),
        ),
        remote_key: bundle.signed_prekey.skip(1),
        seed,
    }
}

/// Whether the keys that come of drawing `ephemeral` and `seed` have their lengths and prefixes.
pub open spec fn well_drawn(
    identity_secret: Seq<u8>,
    bundle: Bundle,
    ephemeral: Seq<u8>,
    seed: Seq<u8>,
) -> bool {
    well_encoded(curve_public(ephemeral)) && opening_with(
        identity_secret,
        bundle,
        ephemeral,
        seed,
    ).valid()
}

/// The session and introduction that start a conversation with `contact`, or why there is none.
pub open spec fn started(
    identity: (Seq<u8>, Seq<u8>),
    contact: Contact,
    ephemeral: Seq<u8>,
    seed: Seq<u8>,
) -> Result<(Session, Intro), Failure> {
    let bundle = contact.bundle;
    match bundle_fault(
        bundle,
        prekey_verifies(bundle.identity_key, bundle.signed_prekey, bundle.signature),
    ) {
        Some(e) => Err(Failure::X3dh(e)),
        None => Ok(
            (
                session_with(
                    contact,
                    opening_with(identity.0, bundle, ephemeral, seed).speaker(Seq::empty()),
                ),
                intro_to(contact, identity.1, curve_public(ephemeral)),
            ),
        ),
    }
}

/// The contents of a started session.
pub open spec fn start_view(r: Result<(ActiveSession, Introduction), SdkError>) -> Result<
    (Session, Intro),
    Failure,
> {
    match r {
        Ok(p) => Ok((p.0@, p.1@)),
        Err(e) => Err(e@),
    }
}

/// Starts a session with a contact: agrees on a secret with the contact's published keys and sets
/// up the sending ratchet.
pub fn start_session(
    id_key: &([u8; 32], [u8; 33]),
    contact: (String, String, PreKeyBundle),
) -> (r: Result<(ActiveSession, Introduction), SdkError>)
    requires
        all_readable(bundle_keys(contact.2@)),
    ensures
        exists|ephemeral: Seq<u8>, seed: Seq<u8>|
            ephemeral.len() == 32 && seed.len() == 32 && start_view(r) == #[trigger] started(
                (id_key.0@, id_key.1@),
                contact_view(contact),
                ephemeral,
                seed,
            ) && (r is Ok ==> well_drawn(id_key.0@, contact.2@, ephemeral, seed)),
{
    let ghost zeros = Seq::new(32, |i: int| 0u8);
    let initiation = match x3dh_initiate(&id_key.0, &contact.2) {
        Ok(i) => i,
        Err(e) => {
            let r = Err(SdkError::from(e));
            assert(start_view(r) == started(
                (id_key.0@, id_key.1@),
                contact_view(contact),
                zeros,
                zeros,
            ));
            return r;
        },
    };
    let ghost ephemeral = choose|e: Seq<u8>|
        e.len() == 32 && initiation.ephemeral_public@ == #[trigger] curve_public(e)
            && initiation.shared_secret@ == x3dh_secret(
            id_key.0@,
            e,
            contact.2@.identity_key,
            contact.2@.signed_prekey,
            contact.2@.one_time_key(),
        );
    proof {
        let keys = bundle_keys(contact.2@);
        assert(!refused(keys[1]));
    }
    let remote_key = match decode_public_key(&contact.2.signed_prekey.public_key) {
        Some(k) => k,
        None => return Err(SdkError::Crypto("Invalid SPK pub".to_owned())),
    };
    let ratchet_state = match init_sender_state(initiation.shared_secret, remote_key) {
        Ok(state) => state,
        Err(e) => return Err(SdkError::Crypto(message("Ratchet init failed: ", e.as_str()))),
    };
    let ghost seed = choose|seed: Seq<u8>|
        seed.len() == 32 && ratchet_state == #[trigger] sender_state(
            initiation.shared_secret@,
            remote_key@,
            seed,
        );
    let r = Ok(introduce(contact, &id_key.1, &initiation.ephemeral_public, ratchet_state));
    assert(start_view(r) == started(
        (id_key.0@, id_key.1@),
        contact_view(contact),
        ephemeral,
        seed,
    ));
    r
}

// ---------------------------------------------------------------------------
// Encrypting
// ---------------------------------------------------------------------------

/// The contents of an encrypted header and ciphertext.
pub open spec fn packet_view(r: Result<(Vec<u8>, Vec<u8>), SdkError>) -> Result<
    (Seq<u8>, Seq<u8>),
    Failure,
> {
    match r {
        Ok(p) => Ok((p.0@, p.1@)),
        Err(e) => Err(e@),
    }
}

/// What becomes of an encryption's outcome.
pub open spec fn packet_of(outcome: Result<(Seq<u8>, Seq<u8>), Seq<char>>) -> Result<
    (Seq<u8>, Seq<u8>),
    Failure,
> {
    match outcome {
        Ok(p) => Ok(p),
        Err(e) => Err(Failure::Crypto("Ratchet encrypt failed: "@ + e)),
    }
}

impl Session {
    /// The associated data of a message that the holder of `identity` sends in this session.
    pub open spec fn outgoing_ad(self, identity: Seq<u8>) -> Seq<u8> {
        identity + self.remote_identity
    }

    /// The associated data of a message that the holder of `identity` receives in this session.
    pub open spec fn incoming_ad(self, identity: Seq<u8>) -> Seq<u8> {
        self.remote_identity + identity
    }

    /// What encrypting `payload` in this session gives.
    pub open spec fn sealing(self, identity: Seq<u8>, payload: Seq<u8>) -> (
        Result<(Seq<u8>, Seq<u8>), Seq<char>>,
        RatchetState,
    ) {
        sealed(self.ratchet, payload, self.outgoing_ad(identity))
    }

    /// Whether this session is good for another message: it is the initiator's, which has
    /// encrypted messages and decrypted replies, or the responder's, which has decrypted messages
    /// and replied.
    pub open spec fn can_seal(self) -> bool {
        &&& self.remote_identity.len() <= 65503
        &&& {
            ||| exists|o: Opening, sent: Seq<Sealing>|
                o.valid() && sent.len() < u32::MAX && o.all_sealed(sent) && self.ratchet
                    == #[trigger] o.speaker(sent)
            ||| exists|x: Exchange|
                x.valid() && x.log.len() > 0 && x.replies().len() < u32::MAX && self.ratchet
                    == #[trigger] x.responder()
            ||| exists|x: Exchange|
                x.valid() && x.hearing.len() > 0 && self.ratchet == #[trigger] x.initiator()
        }
    }

    /// This session with another ratchet state.
    pub open spec fn with_ratchet(self, ratchet: RatchetState) -> Session {
        Session { ratchet, ..self }
    }
}

impl ActiveSession {
    /// Encrypts `payload` for the contact of this session and advances the sending ratchet. The
    /// initiator of a session can do so from the start, the responder once it has decrypted a
    /// message.
    pub fn seal(&mut self, identity_public: &[u8; 33], payload: &[u8]) -> (r: Result<
        (Vec<u8>, Vec<u8>),
        SdkError,
    >)
        ensures
            packet_view(r) == packet_of(old(self)@.sealing(identity_public@, payload@).0),
            final(self)@ == old(self)@.with_ratchet(
                old(self)@.sealing(identity_public@, payload@).1,
            ),
            old(self)@.can_seal() ==> r is Ok,
    {
        let ad = construct_ad(identity_public, self.remote_identity_pub.as_slice());
        match ratchet_encrypt(&mut self.ratchet_state, payload, ad.as_slice()) {
            Ok(p) => Ok(p),
            Err(e) => Err(SdkError::Crypto(message("Ratchet encrypt failed: ", e.as_str()))),
        }
    }
}

/// The low 64 bits of a number of milliseconds.
pub open spec fn low_bits(millis: u128) -> u64 {
    (millis % 0x1_0000_0000_0000_0000) as u64
}

/// Takes the low 64 bits of a number of milliseconds.
fn low_64(millis: u128) -> (r: u64)
    ensures
        r == low_bits(millis),
{
    let low: u128 = millis % 0x1_0000_0000_0000_0000;
    low as u64
}

/// The envelope around a header and a ciphertext.
pub open spec fn envelope_of(
    packet: (Seq<u8>, Seq<u8>),
    timestamp: u64,
    intro: Option<Intro>,
) -> Envelope {
    Envelope {
        ciphertext: b64(packet.1),
        header: b64(packet.0),
        timestamp,
        identity_key: match intro {
            Some(i) => Some(i.identity_key),
            None => None,
        },
        ephemeral_key: match intro {
            Some(i) => Some(i.ephemeral_key),
            None => None,
        },
        spk_id: match intro {
            Some(_) => Some(SIGNED_PRE_KEY_ID),
            None => None,
        },
        opk_id: match intro {
            Some(i) => i.opk_id,
            None => None,
        },
    }
}

/// The contents of an introduction that may be absent.
pub open spec fn optional_intro(intro: Option<Introduction>) -> Option<Intro> {
    match intro {
        Some(i) => Some(i@),
        None => None,
    }
}

impl EncryptedPayload {
    /// Wraps a header and a ciphertext. The first message of a session carries the introduction
    /// and names the signed pre-key.
    pub fn wrap(
        header: &[u8],
        ciphertext: &[u8],
        timestamp: u64,
        introduction: Option<Introduction>,
    ) -> (r: Self)
        ensures
            r@ == envelope_of((header@, ciphertext@), timestamp, optional_intro(introduction)),
    {
        let ciphertext = b64_encode(ciphertext);
        let header = b64_encode(header);
        match introduction {
            Some(i) => EncryptedPayload {
                ciphertext,
                header,
                timestamp,
                identity_key: Some(i.identity_key),
                ephemeral_key: Some(i.ephemeral_key),
                spk_id: Some(SIGNED_PRE_KEY_ID),
                opk_id: i.opk_id,
            },
            None => EncryptedPayload {
                ciphertext,
                header,
                timestamp,
                identity_key: None,
                ephemeral_key: None,
                spk_id: None,
                opk_id: None,
            },
        }
    }
}

/// The session to encrypt in, and the introduction if it is new.
pub open spec fn outgoing_session(
    identity: (Seq<u8>, Seq<u8>),
    existing: Option<Session>,
    contact: Option<Contact>,
    ephemeral: Seq<u8>,
    seed: Seq<u8>,
) -> Result<(Session, Option<Intro>), Failure> {
    match (existing, contact) {
        (Some(s), _) => Ok((s, None)),
        (None, None) => Err(
            Failure::Crypto("No existing session and no prekey bundle provided"@),
        ),
        (None, Some(c)) => match started(identity, c, ephemeral, seed) {
            Ok((s, i)) => Ok((s, Some(i))),
            Err(e) => Err(e),
        },
    }
}

/// What encrypting `payload` gives at the time `now`, when a new session draws `ephemeral` and
/// `seed`: the envelope and the session after it.
pub open spec fn encrypted(
    payload: Seq<u8>,
    identity: (Seq<u8>, Seq<u8>),
    existing: Option<Session>,
    contact: Option<Contact>,
    ephemeral: Seq<u8>,
    seed: Seq<u8>,
    now: Result<u128, Seq<char>>,
) -> Result<(Envelope, Session), Failure> {
    match outgoing_session(identity, existing, contact, ephemeral, seed) {
        Err(e) => Err(e),
        Ok((session, intro)) => {
            let sealing = session.sealing(identity.1, payload);
            match (packet_of(sealing.0), now) {
                (Err(e), _) => Err(e),
                (Ok(_), Err(e)) => Err(Failure::Crypto(e)),
                (Ok(p), Ok(t)) => Ok(
                    (
                        envelope_of(p, low_bits(t), intro),
                        session.with_ratchet(sealing.1),
                    ),
                ),
            }
        },
    }
}

/// The contents of an encryption's result.
pub open spec fn encryption_view(r: Result<(EncryptedPayload, ActiveSession), SdkError>) -> Result<
    (Envelope, Session),
    Failure,
> {
    match r {
        Ok(p) => Ok((p.0@, p.1@)),
        Err(e) => Err(e@),
    }
}

/// The contents of a session that may be absent.
pub open spec fn optional_session(s: Option<ActiveSession>) -> Option<Session> {
    match s {
        Some(s) => Some(s@),
        None => None,
    }
}

/// The contents of a contact that may be absent.
pub open spec fn optional_contact(c: Option<(String, String, PreKeyBundle)>) -> Option<Contact> {
    match c {
        Some(c) => Some(contact_view(c)),
        None => None,
    }
}

/// Whether encryption has what it takes: a session that is good for another message or, where there
/// is none, a contact whose keys and signature are in order.
pub open spec fn can_encrypt(existing: Option<Session>, contact: Option<Contact>) -> bool {
    match (existing, contact) {
        (Some(s), _) => s.can_seal(),
        (None, None) => false,
        (None, Some(c)) => bundle_fault(
            c.bundle,
            prekey_verifies(c.bundle.identity_key, c.bundle.signed_prekey, c.bundle.signature),
        ) is None,
    }
}

/// Whether `outcome` is what encrypting gives when a new session draws `ephemeral` and `seed`. It
/// succeeds where encryption has what it takes and the clock can be read.
pub open spec fn encrypts_to(
    payload: Seq<u8>,
    identity: (Seq<u8>, Seq<u8>),
    existing: Option<Session>,
    contact: Option<Contact>,
    ephemeral: Seq<u8>,
    seed: Seq<u8>,
    now: Result<u128, Seq<char>>,
    outcome: Result<(Envelope, Session), Failure>,
) -> bool {
    &&& ephemeral.len() == 32
    &&& seed.len() == 32
    &&& outcome == encrypted(payload, identity, existing, contact, ephemeral, seed, now)
    &&& outcome is Ok && existing is None && contact is Some ==> well_drawn(
        identity.0,
        contact->0.bundle,
        ephemeral,
        seed,
    )
    &&& can_encrypt(existing, contact) && now is Ok ==> outcome is Ok
}

/// Encrypts `payload` at the time `now`, in the existing session or, where there is none, in a new
/// one with the given contact.
///
/// A new session is always good for its first message, the initiator of a session can encrypt
/// further messages without waiting for a reply, and the responder can encrypt replies.
pub fn encrypt_message_at(
    payload: &[u8],
    id_key: &([u8; 32], [u8; 33]),
    existing_session: Option<ActiveSession>,
    prekey_bundle_opt: Option<(String, String, PreKeyBundle)>,
    now: Result<u128, String>,
) -> (r: Result<(EncryptedPayload, ActiveSession), SdkError>)
    requires
        existing_session is None ==> (prekey_bundle_opt matches Some(c) ==> all_readable(
            bundle_keys(c.2@),
        )),
    ensures
        exists|ephemeral: Seq<u8>, seed: Seq<u8>| #[trigger]
            encrypts_to(
                payload@,
                (id_key.0@, id_key.1@),
                optional_session(existing_session),
                optional_contact(prekey_bundle_opt),
                ephemeral,
                seed,
                millis_view(now),
                encryption_view(r),
            ),
{
    let ghost identity = (id_key.0@, id_key.1@);
    let ghost existing = optional_session(existing_session);
    let ghost contact = optional_contact(prekey_bundle_opt);
    let ghost clock = millis_view(now);
    let ghost mut ephemeral = Seq::new(32, |i: int| 0u8);
    let ghost mut seed = Seq::new(32, |i: int| 0u8);
    let mut session: ActiveSession;
    let introduction: Option<Introduction>;
    match existing_session {
        Some(s) => {
            session = s;
            introduction = None;
        },
        None => match prekey_bundle_opt {
            None => {
                let r = Err(
                    SdkError::Crypto(
                        "No existing session and no prekey bundle provided".to_owned(),
                    ),
                );
                assert(encrypts_to(
                    payload@,
                    identity,
                    existing,
                    contact,
                    ephemeral,
                    seed,
                    clock,
                    encryption_view(r),
                ));
                return r;
            },
            Some(c) => {
                let begun = start_session(id_key, c);
                proof {
                    let (e, s) = choose|e: Seq<u8>, s: Seq<u8>|
                        e.len() == 32 && s.len() == 32 && start_view(begun)
                            == #[trigger] started(identity, contact_view(c), e, s) && (begun is Ok
                            ==> well_drawn(id_key.0@, c.2@, e, s));
                    ephemeral = e;
                    seed = s;
                }
                match begun {
                    Ok((s, i)) => {
                        session = s;
                        introduction = Some(i);
                    },
                    Err(e) => {
                        let r = Err(e);
                        assert(encrypts_to(
                            payload@,
                            identity,
                            existing,
                            contact,
                            ephemeral,
                            seed,
                            clock,
                            encryption_view(r),
                        ));
                        return r;
                    },
                }
            },
        },
    }
    let ghost before = session@;
    assert(outgoing_session(identity, existing, contact, ephemeral, seed) == Ok::<
        (Session, Option<Intro>),
        Failure,
    >((before, optional_intro(introduction))));
    let packet = session.seal(&id_key.1, payload);
    let r = match packet {
        Err(e) => Err(e),
        Ok((header, ciphertext)) => match now {
            Err(e) => Err(SdkError::Crypto(e)),
            Ok(t) => {
                let envelope = EncryptedPayload::wrap(
                    header.as_slice(),
                    ciphertext.as_slice(),
                    low_64(t),
                    introduction,
                );
                Ok((envelope, session))
            },
        },
    };
    assert(encrypts_to(
        payload@,
        identity,
        existing,
        contact,
        ephemeral,
        seed,
        clock,
        encryption_view(r),
    ));
    r
}

/// Encrypts `payload`, in the existing session or, where there is none, in a new one with the
/// given contact. Returns the envelope to send and the session to keep.
pub fn encrypt_message(
    payload: &[u8],
    id_key: &([u8; 32], [u8; 33]),
    existing_session: Option<ActiveSession>,
    prekey_bundle_opt: Option<(String, String, PreKeyBundle)>,
) -> (r: Result<(EncryptedPayload, ActiveSession), SdkError>)
    requires
        existing_session is None ==> (prekey_bundle_opt matches Some(c) ==> all_readable(
            bundle_keys(c.2@),
        )),
    ensures
        exists|ephemeral: Seq<u8>, seed: Seq<u8>, t: std::time::SystemTime| #[trigger]
            encrypts_to(
                payload@,
                (id_key.0@, id_key.1@),
                optional_session(existing_session),
                optional_contact(prekey_bundle_opt),
                ephemeral,
                seed,
                millis_at(t),
                encryption_view(r),
            ),
{
    let now = unix_millis();
    encrypt_message_at(payload, id_key, existing_session, prekey_bundle_opt, now)
}

// ---------------------------------------------------------------------------
// Decrypting
// ---------------------------------------------------------------------------

/// Why a session with the given number of received messages cannot decrypt, if it cannot: it has no
/// JSON form, so that it could not be saved, or its counter is about to run out.
pub open spec fn count_fault(count: Result<u32, Seq<char>>) -> Option<Failure> {
    match count {
        Err(e) => Some(Failure::Storage("Session serialize error: "@ + e)),
        Ok(n) => if n > RECEIVE_LIMIT {
            Some(Failure::Crypto("Ratchet decrypt failed: CounterOverflow"@))
        } else {
            None
        },
    }
}

/// The contents of an error that may be absent.
pub open spec fn optional_failure(e: Option<SdkError>) -> Option<Failure> {
    match e {
        Some(e) => Some(e@),
        None => None,
    }
}

/// Tells whether a session with the given number of received messages can decrypt.
pub fn check_count(count: Result<u32, String>) -> (r: Option<SdkError>)
    ensures
        optional_failure(r) == count_fault(count_view(count)),
{
    match count {
        Err(e) => Some(SdkError::session_serialize(e.as_str())),
        Ok(n) => if n > RECEIVE_LIMIT {
            Some(SdkError::Crypto("Ratchet decrypt failed: CounterOverflow".to_owned()))
        } else {
            None
        },
    }
}

/// What opening an envelope with the given decoded header and ciphertext gives, and the session
/// after it, when `chance` is what the ratchet draws.
pub open spec fn opening(
    session: Session,
    identity: Seq<u8>,
    header: Result<Seq<u8>, Seq<char>>,
    ciphertext: Result<Seq<u8>, Seq<char>>,
    chance: Seq<u8>,
) -> (Result<Seq<u8>, Failure>, Session) {
    match (header, ciphertext) {
        (Err(e), _) => (Err(Failure::Crypto("Invalid header base64: "@ + e)), session),
        (_, Err(e)) => (Err(Failure::Crypto("Invalid ciphertext base64: "@ + e)), session),
        (Ok(h), Ok(c)) => {
            match count_fault(received_count(session.ratchet)) {
                Some(e) => (Err(e), session),
                None => {
                    let outcome = opened(
                        session.ratchet,
                        h,
                        c,
                        session.incoming_ad(identity),
                        chance,
                    );
                    (
                        match outcome.0 {
                            Ok(p) => Ok(p),
                            Err(e) => Err(Failure::Crypto("Ratchet decrypt failed: "@ + e)),
                        },
                        session.with_ratchet(outcome.1),
                    )
                },
            }
        },
    }
}

/// Whether a header and a ciphertext are the initiator's message with the number `i`, which can be
/// decrypted next in `session`, the responder's. Where the session stores keys it has to have a JSON
/// form.
pub open spec fn comes_next(
    session: Session,
    identity: Seq<u8>,
    packet: (Seq<u8>, Seq<u8>),
    x: Exchange,
    i: nat,
) -> bool {
    &&& x.valid()
    &&& x.expects(i)
    &&& session.ratchet == x.responder()
    &&& chain_after(x.heard()).1 == Set::<int>::empty() || received_count(session.ratchet) is Ok
    &&& session.incoming_ad(identity) == x.sent[i as int].ad
    &&& x.packet(i) == Ok::<(Seq<u8>, Seq<u8>), Seq<char>>(packet)
}

/// Whether a header and a ciphertext are the responder's reply with the number `j`, which can be
/// decrypted next in `session`, the initiator's. Where the session stores keys it has to have a JSON
/// form.
pub open spec fn comes_back(
    session: Session,
    identity: Seq<u8>,
    packet: (Seq<u8>, Seq<u8>),
    x: Exchange,
    j: nat,
) -> bool {
    &&& x.valid()
    &&& x.expects_reply(j)
    &&& session.ratchet == x.initiator()
    &&& chain_after(x.replies_heard()).1 == Set::<int>::empty() || received_count(
        session.ratchet,
    ) is Ok
    &&& session.incoming_ad(identity) == x.replies()[j as int].ad
    &&& x.reply_packet(j) == Ok::<(Seq<u8>, Seq<u8>), Seq<char>>(packet)
}

/// The counter of a chain does not outrun the messages that were decrypted.
proof fn lemma_count_is_bounded(order: Seq<nat>)
    ensures
        chain_after(order).0 <= order.len(),
    decreases order.len(),
{
    if order.len() > 0 {
        lemma_count_is_bounded(order.drop_last());
    }
}

/// The contents of a plaintext.
pub open spec fn plaintext_view(r: Result<Vec<u8>, SdkError>) -> Result<Seq<u8>, Failure> {
    match r {
        Ok(p) => Ok(p@),
        Err(e) => Err(e@),
    }
}

impl ActiveSession {
    /// Decrypts a message from the contact of this session, given what decoding its header and its
    /// ciphertext gave, and advances the receiving ratchet.
    ///
    /// A message that the initiator sent before it heard a reply gives back what the initiator
    /// encrypted, and a reply to such messages what the responder encrypted, in any order that is
    /// [`orderly`](crate::signal::orderly).
    pub fn open(
        &mut self,
        identity_public: &[u8; 33],
        header: Result<Vec<u8>, String>,
        ciphertext: Result<Vec<u8>, String>,
    ) -> (r: Result<Vec<u8>, SdkError>)
        ensures
            exists|chance: Seq<u8>|
                (plaintext_view(r), final(self)@) == #[trigger] opening(
                    old(self)@,
                    identity_public@,
                    bytes_or_text(header),
                    bytes_or_text(ciphertext),
                    chance,
                ),
            forall|x: Exchange, i: nat|
                header is Ok && ciphertext is Ok && #[trigger] comes_next(
                    old(self)@,
                    identity_public@,
                    (header->Ok_0@, ciphertext->Ok_0@),
                    x,
                    i,
                ) ==> r is Ok && r->Ok_0@ == x.sent[i as int].plaintext,
            forall|x: Exchange, j: nat|
                header is Ok && ciphertext is Ok && #[trigger] comes_back(
                    old(self)@,
                    identity_public@,
                    (header->Ok_0@, ciphertext->Ok_0@),
                    x,
                    j,
                ) ==> r is Ok && r->Ok_0@ == x.replies()[j as int].plaintext,
    {
        let ghost before = self@;
        let ghost header_bytes = bytes_or_text(header);
        let ghost ciphertext_bytes = bytes_or_text(ciphertext);
        let ad = construct_ad(self.remote_identity_pub.as_slice(), identity_public);
        let h = match header {
            Ok(h) => h,
            Err(e) => {
                let r = Err(SdkError::Crypto(message("Invalid header base64: ", e.as_str())));
                assert((plaintext_view(r), before) == opening(
                    before,
                    identity_public@,
                    header_bytes,
                    ciphertext_bytes,
                    Seq::empty(),
                ));
                return r;
            },
        };
        let c = match ciphertext {
            Ok(c) => c,
            Err(e) => {
                let r = Err(SdkError::Crypto(message("Invalid ciphertext base64: ", e.as_str())));
                assert((plaintext_view(r), before) == opening(
                    before,
                    identity_public@,
                    header_bytes,
                    ciphertext_bytes,
                    Seq::empty(),
                ));
                return r;
            },
        };
        let count = ratchet_received(&self.ratchet_state);
        proof {
            assert forall|x: Exchange, i: nat| #[trigger]
                comes_next(before, identity_public@, (h@, c@), x, i) implies count_fault(
                received_count(before.ratchet),
            ) is None by {
                lemma_count_is_bounded(x.heard());
            }
            assert forall|x: Exchange, j: nat| #[trigger]
                comes_back(before, identity_public@, (h@, c@), x, j) implies count_fault(
                received_count(before.ratchet),
            ) is None by {
                lemma_count_is_bounded(x.replies_heard());
            }
        }
        match check_count(count) {
            Some(e) => {
                let r = Err(e);
                assert((plaintext_view(r), before) == opening(
                    before,
                    identity_public@,
                    header_bytes,
                    ciphertext_bytes,
                    Seq::empty(),
                ));
                return r;
            },
            None => {},
        }
        let outcome = ratchet_decrypt(
            &mut self.ratchet_state,
            h.as_slice(),
            c.as_slice(),
            ad.as_slice(),
        );
        let ghost chance = choose|chance: Seq<u8>|
            (bytes_or_text(outcome), self.ratchet_state) == #[trigger] opened(
                before.ratchet,
                h@,
                c@,
                ad@,
                chance,
            );
        let r = match outcome {
            Ok(p) => Ok(p),
            Err(e) => Err(SdkError::Crypto(message("Ratchet decrypt failed: ", e.as_str()))),
        };
        assert((plaintext_view(r), self@) == opening(
            before,
            identity_public@,
            header_bytes,
            ciphertext_bytes,
            chance,
        ));
        r
    }
}

// ---------------------------------------------------------------------------
// Laws
// ---------------------------------------------------------------------------

/// Both ends of a session put the same associated data to a message: where each end holds the
/// other's identity key, what the one seals with is what the other opens with.
pub proof fn law_both_ends_use_the_same_ad(
    sender_session: Session,
    recipient_session: Session,
    sender: Seq<u8>,
    recipient: Seq<u8>,
)
    requires
        sender_session.remote_identity == recipient,
        recipient_session.remote_identity == sender,
    ensures
        sender_session.outgoing_ad(sender) == recipient_session.incoming_ad(recipient),
        sender_session.incoming_ad(sender) == recipient_session.outgoing_ad(recipient),
{
}

/// A message in an existing session is encrypted in that session, whatever contact is at hand, and
/// carries no introduction.
pub proof fn law_existing_session_is_used(
    payload: Seq<u8>,
    identity: (Seq<u8>, Seq<u8>),
    session: Session,
    contact: Option<Contact>,
    ephemeral: Seq<u8>,
    seed: Seq<u8>,
    now: Result<u128, Seq<char>>,
)
    ensures
        encrypted(payload, identity, Some(session), contact, ephemeral, seed, now) == encrypted(
            payload,
            identity,
            Some(session),
            None,
            Seq::empty(),
            Seq::empty(),
            now,
        ),
        encrypted(payload, identity, Some(session), contact, ephemeral, seed, now) matches Ok(o)
            ==> o.0.identity_key is None && o.0.ephemeral_key is None && o.0.spk_id is None
            && o.0.opk_id is None,
{
}

/// What an envelope of an existing session holds: the header and the ciphertext that the ratchet gives
/// for exactly this payload, with the sender's identity key and then the contact's as associated data,
/// the time of the clock in milliseconds, and nothing that starts a session. The session afterwards is
/// with the same contact and has gone on by that message. There is an envelope exactly when the ratchet
/// encrypts and the clock can be read; otherwise the error says which did not.
pub proof fn law_envelope_holds_the_payload(
    payload: Seq<u8>,
    identity: (Seq<u8>, Seq<u8>),
    session: Session,
    contact: Option<Contact>,
    ephemeral: Seq<u8>,
    seed: Seq<u8>,
    now: Result<u128, Seq<char>>,
    r: Result<(EncryptedPayload, ActiveSession), SdkError>,
)
    requires
        encryption_view(r) == encrypted(
            payload,
            identity,
            Some(session),
            contact,
            ephemeral,
            seed,
            now,
        ),
    ensures
        ({
            let sealing = sealed(session.ratchet, payload, identity.1 + session.remote_identity);
            match (sealing.0, now, r) {
                (Ok(packet), Ok(t), Ok((v, s))) => {
                    &&& b64_decoded(v.header@) == Ok::<Seq<u8>, Seq<char>>(packet.0)
                    &&& b64_decoded(v.ciphertext@) == Ok::<Seq<u8>, Seq<char>>(packet.1)
                    &&& v.timestamp as int == t % 0x1_0000_0000_0000_0000
                    &&& v.identity_key is None && v.ephemeral_key is None
                    &&& v.spk_id is None && v.opk_id is None
                    &&& s.ratchet_state == sealing.1
                    &&& s.remote_identity_pub@ == session.remote_identity
                    &&& s.remote_user_id@ == session.remote_user_id
                    &&& s.remote_device_id@ == session.remote_device_id
                },
                (Err(e), _, Err(f)) => f@ == Failure::Crypto("Ratchet encrypt failed: "@ + e),
                (Ok(_), Err(e), Err(f)) => f@ == Failure::Crypto(e),
                _ => false,
            }
        }),
{
    let sealing = sealed(session.ratchet, payload, identity.1 + session.remote_identity);
    if let Ok(packet) = sealing.0 {
        law_b64_is_read_back(packet.0);
        law_b64_is_read_back(packet.1);
    }
}

/// What the first envelope of a session holds besides the message: the sender's identity key, the
/// public half of the ephemeral key that was drawn, and the ids of the recipient's pre-keys. The session
/// is with the user and the device whose keys were used. Without a session and without keys to start one
/// nothing is encrypted, nor with keys that are refused or not signed by their owner.
pub proof fn law_first_envelope_introduces_the_sender(
    payload: Seq<u8>,
    identity: (Seq<u8>, Seq<u8>),
    contact: Option<Contact>,
    ephemeral: Seq<u8>,
    seed: Seq<u8>,
    now: Result<u128, Seq<char>>,
    r: Result<(EncryptedPayload, ActiveSession), SdkError>,
)
    requires
        encryption_view(r) == encrypted(
            payload,
            identity,
            None,
            contact,
            ephemeral,
            seed,
            now,
        ),
    ensures
        contact is None ==> (r matches Err(e) && e@ == Failure::Crypto(
            "No existing session and no prekey bundle provided"@,
        )),
        contact matches Some(c) && any_refused(bundle_keys(c.bundle)) ==> (r matches Err(e) && e@
            == Failure::X3dh(X3DHError::InvalidKey)),
        contact matches Some(c) && !any_refused(bundle_keys(c.bundle)) && vxeddsa_verified(
            c.bundle.identity_key,
            c.bundle.signed_prekey,
            c.bundle.signature,
        ) is None ==> (r matches Err(e) && e@ == Failure::X3dh(X3DHError::InvalidSignature)),
        r matches Ok((v, s)) ==> contact is Some && now is Ok && {
            let c = contact->0;
            &&& v.identity_key matches Some(k) && b64_decoded(k@) == Ok::<Seq<u8>, Seq<char>>(
                identity.1,
            )
            &&& v.ephemeral_key matches Some(k) && b64_decoded(k@) == Ok::<Seq<u8>, Seq<char>>(
                curve_public(ephemeral),
            )
            &&& v.spk_id == Some(SIGNED_PRE_KEY_ID)
            &&& match (c.bundle.one_time_prekey, v.opk_id) {
                (Some(k), Some(id)) => id == k.0,
                (None, None) => true,
                _ => false,
            }
            &&& v.timestamp as int == now->Ok_0 % 0x1_0000_0000_0000_0000
            &&& s.remote_identity_pub@ == c.bundle.identity_key
            &&& s.remote_user_id@ == c.user_id
            &&& s.remote_device_id@ == c.device_id
        },
{
    law_b64_is_read_back(identity.1);
    law_b64_is_read_back(curve_public(ephemeral));
}

/// What opening a message gives: the plaintext is the ratchet's, for this header and this ciphertext,
/// with the contact's identity key and then the recipient's as associated data. The session afterwards
/// is with the same contact and has gone on as the ratchet says. What cannot be decoded is not opened,
/// and leaves the session as it was.
pub proof fn law_opening_gives_what_the_ratchet_gives(
    session: Session,
    identity: Seq<u8>,
    header: Result<Seq<u8>, Seq<char>>,
    ciphertext: Result<Seq<u8>, Seq<char>>,
    chance: Seq<u8>,
)
    ensures
        ({
            let r = opening(session, identity, header, ciphertext, chance);
            let ad = session.remote_identity + identity;
            &&& r.1.remote_identity == session.remote_identity
            &&& r.1.remote_user_id == session.remote_user_id
            &&& r.1.remote_device_id == session.remote_device_id
            &&& match (header, ciphertext) {
                (Ok(h), Ok(c)) => received_count(session.ratchet) is Ok && received_count(
                    session.ratchet,
                )->Ok_0 <= 0xffff_fc17 ==> {
                    let o = opened(session.ratchet, h, c, ad, chance);
                    &&& r.1.ratchet == o.1
                    &&& match (o.0, r.0) {
                        (Ok(p), Ok(q)) => p == q,
                        (Err(e), Err(f)) => f == Failure::Crypto("Ratchet decrypt failed: "@ + e),
                        _ => false,
                    }
                },
                (Err(e), _) => r.1 == session && r.0 == Err::<Seq<u8>, Failure>(
                    Failure::Crypto("Invalid header base64: "@ + e),
                ),
                (_, Err(e)) => r.1 == session && r.0 == Err::<Seq<u8>, Failure>(
                    Failure::Crypto("Invalid ciphertext base64: "@ + e),
                ),
            }
        }),
{
}

/// A session decrypts as long as it has a JSON form and its counter leaves room.
pub proof fn law_sessions_that_decrypt(count: Result<u32, Seq<char>>)
    ensures
        count_fault(count) is None <==> (count matches Ok(n) && n <= 0xffff_fc17),
        count matches Err(e) ==> count_fault(count) == Some(
            Failure::Storage("Session serialize error: "@ + e),
        ),
{
}

}
