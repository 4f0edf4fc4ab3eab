//! Keys, key agreement and ratchet sessions, as `libsignal_dezire` provides them.
//!
//! The functions that the verifier takes on trust each call one function of that library, or of
//! the curve library under it, and say what is relied on.
use libsignal_dezire::ratchet::RatchetState;
use libsignal_dezire::x3dh;
use vstd::prelude::*;
use vstd::set_lib::set_int_range;

use crate::encoding::bytes_or_text;
use crate::error::{VXEdDSAError, X3DHError};

verus! {

// ---------------------------------------------------------------------------
// Keys
// ---------------------------------------------------------------------------

/// The byte that stands before the 32 bytes of an encoded public key.
pub const KEY_PREFIX: u8 = 5;

/// A Curve25519 key pair.
pub struct KeyPair {
    /// The 32-byte secret key.
    pub secret: [u8; 32],
    /// The 33-byte encoded public key.
    pub public: [u8; 33],
}

/// The id of a device's signed pre-key: the one that it is stored under, and the one that a first
/// message to the device names.
pub const SIGNED_PRE_KEY_ID: u32 = 1;

/// A published signed pre-key.
pub struct SignedPreKey {
    pub id: u32,
    pub public_key: [u8; 33],
    pub signature: [u8; 96],
}

/// A published one-time pre-key.
pub struct OneTimePreKey {
    pub id: u32,
    pub public_key: [u8; 33],
}

/// The keys that a contact publishes so that others can start a session.
pub struct PreKeyBundle {
    pub identity_key: [u8; 33],
    pub signed_prekey: SignedPreKey,
    pub one_time_prekey: Option<OneTimePreKey>,
}

/// The contents of a [`PreKeyBundle`].
#[verifier::ext_equal]
pub struct Bundle {
    pub identity_key: Seq<u8>,
    pub signed_prekey_id: u32,
    pub signed_prekey: Seq<u8>,
    pub signature: Seq<u8>,
    pub one_time_prekey: Option<(u32, Seq<u8>)>,
}

impl View for PreKeyBundle {
    type V = Bundle;

    open spec fn view(&self) -> Bundle {
        Bundle {
            identity_key: self.identity_key@,
            signed_prekey_id: self.signed_prekey.id,
            signed_prekey: self.signed_prekey.public_key@,
            signature: self.signed_prekey.signature@,
            one_time_prekey: match self.one_time_prekey {
                Some(k) => Some((k.id, k.public_key@)),
                None => None,
            },
        }
    }
}

impl Bundle {
    /// The one-time pre-key, without its id.
    pub open spec fn one_time_key(self) -> Option<Seq<u8>> {
        match self.one_time_prekey {
            Some(k) => Some(k.1),
            None => None,
        }
    }
}

/// The encoded public key of a 32-byte secret key.
pub uninterp spec fn curve_public(secret: Seq<u8>) -> Seq<u8>;

/// `libsignal_dezire::vxeddsa::gen_keypair`: a random secret key with its public key, which is
/// encoded behind the prefix byte. The public key is the product of a clamped scalar and the base
/// point: a point of the curve that is not of small order.
#[verifier::external_body]
pub(crate) fn gen_keypair() -> (r: KeyPair)
    ensures
        r.public@ == curve_public(r.secret@),
        well_encoded(r.public@),
        readable(r.public@),
        !refused(r.public@),
{
    let pair = libsignal_dezire::vxeddsa::gen_keypair();
    KeyPair { secret: pair.secret, public: pair.public }
}

/// Whether `key` has the length and the prefix of an encoded public key.
pub open spec fn well_encoded(key: Seq<u8>) -> bool {
    key.len() == 33 && key[0] == KEY_PREFIX
}

/// The key without the prefix byte, if the prefix is right.
pub open spec fn decoded_key(key: Seq<u8>) -> Option<Seq<u8>> {
    if key[0] == KEY_PREFIX {
        Some(key.skip(1))
    } else {
        None
    }
}

/// Takes the prefix byte off an encoded public key.
pub(crate) fn decode_public_key(key: &[u8; 33]) -> (r: Option<[u8; 32]>)
    ensures
        match r {
            Some(k) => decoded_key(key@) == Some(k@),
            None => decoded_key(key@) is None,
        },
{
    if key[0] != KEY_PREFIX {
        return None;
    }
    let mut decoded: [u8; 32] = [0u8;32];
    for i in 0..32usize
        invariant
            forall|j: int| 0 <= j < i ==> decoded@[j] == key@[j + 1],
    {
        decoded[i] = key[i + 1];
    }
    assert(decoded@ =~= key@.skip(1));
    Some(decoded)
}

// ---------------------------------------------------------------------------
// Points of the curve
// ---------------------------------------------------------------------------

/// The number that `bytes` stand for, least significant byte first.
pub open spec fn le_value(bytes: Seq<u8>) -> int
    decreases bytes.len(),
{
    if bytes.len() == 0 {
        0
    } else {
        bytes.last() * vstd::arithmetic::power::pow(256, (bytes.len() - 1) as nat) + le_value(
            bytes.drop_last(),
        )
    }
}

/// The prime that the curve's field is built on.
pub open spec fn field_prime() -> int {
    vstd::arithmetic::power::pow(2, 255) - 19
}

/// The u-coordinate that 32 bytes stand for: the top bit is ignored.
pub open spec fn u_coordinate(bytes: Seq<u8>) -> int {
    (le_value(bytes) % vstd::arithmetic::power::pow(2, 255)) % field_prime()
}

/// Whether `u` is the u-coordinate of a point of Curve25519.
pub open spec fn on_curve(u: int) -> bool {
    exists|v: int| #[trigger] (v * v) % field_prime() == (u * u * u + 486662 * u * u + u) % field_prime()
}

/// Whether `u` is the u-coordinate of a point that the cofactor 8 takes to the identity.
pub open spec fn low_order(u: int) -> bool {
    ||| u == 0
    ||| u == 1
    ||| u == 325606250916557431795983626356110631294008115727848805560023387167927233504int
    ||| u == 39382357235489614581723060781553021112529911719440698176882885853963445705823int
}

/// `MontgomeryPoint::to_edwards` of `curve25519_dalek`, which finds a point exactly for the
/// u-coordinates of points on the curve.
#[verifier::external_body]
pub(crate) fn is_on_curve(key: &[u8; 32]) -> (r: bool)
    ensures
        r == on_curve(u_coordinate(key@)),
{
    curve25519_dalek::montgomery::MontgomeryPoint(*key).to_edwards(0).is_some()
}

/// `EdwardsPoint::is_small_order` of `curve25519_dalek`, on the point with the given u-coordinate:
/// the curve has eight points of small order, with four u-coordinates besides the identity's.
#[verifier::external_body]
pub(crate) fn is_low_order(key: &[u8; 32]) -> (r: bool)
    requires
        on_curve(u_coordinate(key@)),
    ensures
        r == low_order(u_coordinate(key@)),
{
    let point = curve25519_dalek::montgomery::MontgomeryPoint(*key).to_edwards(0);
    point.is_some_and(|p| p.is_small_order())
}

/// Whether an encoded public key can be looked at: with the right prefix it has to lie on the
/// curve.
pub open spec fn readable(key: Seq<u8>) -> bool {
    match decoded_key(key) {
        Some(k) => on_curve(u_coordinate(k)),
        None => true,
    }
}

/// Whether an encoded public key is refused: a wrong prefix or a point of small order.
pub open spec fn refused(key: Seq<u8>) -> bool {
    match decoded_key(key) {
        Some(k) => low_order(u_coordinate(k)),
        None => true,
    }
}

/// Whether every key of `keys` up to the first refused one is readable.
pub open spec fn all_readable(keys: Seq<Seq<u8>>) -> bool
    decreases keys.len(),
{
    keys.len() == 0 || readable(keys[0]) && (refused(keys[0]) || all_readable(keys.skip(1)))
}

/// Whether one of `keys` is refused.
pub open spec fn any_refused(keys: Seq<Seq<u8>>) -> bool {
    exists|i: int| 0 <= i < keys.len() && refused(#[trigger] keys[i])
}

/// What looking at one key says.
pub(crate) enum KeyState {
    Unreadable,
    Refused,
    Good,
}

/// Looks at one key.
pub(crate) fn key_state(key: &[u8; 33]) -> (r: KeyState)
    ensures
        r is Unreadable <==> !readable(key@),
        r is Refused <==> readable(key@) && refused(key@),
{
    match decode_public_key(key) {
        None => KeyState::Refused,
        Some(k) => {
            if !is_on_curve(&k) {
                KeyState::Unreadable
            } else if is_low_order(&k) {
                KeyState::Refused
            } else {
                KeyState::Good
            }
        },
    }
}

// ---------------------------------------------------------------------------
// Signatures
// ---------------------------------------------------------------------------

/// A VXEdDSA signature with the output of its verifiable random function.
pub struct VXEdDSAOutput {
    pub signature: [u8; 96],
    pub vrf: [u8; 32],
}

/// The signature and VRF output that `key` gives for `message` when the signer draws `nonce`.
pub uninterp spec fn vxeddsa_signed(key: Seq<u8>, message: Seq<u8>, nonce: Seq<u8>) -> Result<
    (Seq<u8>, Seq<u8>),
    VXEdDSAError,
>;

/// The contents of a signing result.
pub open spec fn signed_view(r: Result<VXEdDSAOutput, VXEdDSAError>) -> Result<
    (Seq<u8>, Seq<u8>),
    VXEdDSAError,
> {
    match r {
        Ok(s) => Ok((s.signature@, s.vrf@)),
        Err(e) => Err(e),
    }
}

/// The VRF output that verifying a signature of `message` gives, if the signature is the one of
/// `public_key`'s owner (`libsignal_dezire::vxeddsa::vxeddsa_verify`).
pub uninterp spec fn vxeddsa_verified(
    public_key: Seq<u8>,
    message: Seq<u8>,
    signature: Seq<u8>,
) -> Option<Seq<u8>>;

/// Whether some signature of `message` by `key` verifies.
pub open spec fn verifiable(key: Seq<u8>, message: Seq<u8>) -> bool {
    exists|nonce: Seq<u8>|
        (#[trigger] vxeddsa_signed(key, message, nonce) matches Ok(p) && vxeddsa_verified(
            curve_public(key),
            message,
            p.0,
        ) is Some)
}

/// Whether a signature of `message` by `key` verifies, if any does, and then gives `vrf`, and
/// whether `vrf` is the output that every signature of `message` by `key` comes with.
pub open spec fn attested(key: Seq<u8>, message: Seq<u8>, signature: Seq<u8>, vrf: Seq<u8>) -> bool {
    &&& verifiable(key, message) ==> vxeddsa_verified(curve_public(key), message, signature)
        == Some(vrf)
    &&& forall|nonce: Seq<u8>|
        (#[trigger] vxeddsa_signed(key, message, nonce) matches Ok(p) ==> p.1 == vrf)
}

/// Whether signing `message` with `key` and `nonce` gives a sound signature, if it gives one.
pub open spec fn attests(key: Seq<u8>, message: Seq<u8>, nonce: Seq<u8>) -> bool {
    vxeddsa_signed(key, message, nonce) matches Ok(p) ==> {
        &&& p.0.len() == 96
        &&& p.1.len() == 32
        &&& attested(key, message, p.0, p.1)
    }
}

/// `libsignal_dezire::vxeddsa::vxeddsa_sign`: the result depends on the key, the message and a
/// nonce that the signer draws at random.
///
/// The VRF output depends on the key and the message alone, and is what the verifier gets. Signatures
/// of a message that is mapped to the identity point do not verify, whatever the nonce; all others
/// do.
#[verifier::external_body]
pub(crate) fn vxeddsa_sign(key: &[u8; 32], message: &[u8]) -> (r: Result<VXEdDSAOutput, VXEdDSAError>)
    ensures
        exists|nonce: Seq<u8>| signed_view(r) == #[trigger] vxeddsa_signed(key@, message@, nonce),
        r matches Ok(s) ==> attested(key@, message@, s.signature@, s.vrf@),
{
    match libsignal_dezire::vxeddsa::vxeddsa_sign(key, message) {
        Ok(out) => Ok(VXEdDSAOutput { signature: out.signature, vrf: out.vrf }),
        Err(libsignal_dezire::vxeddsa::VXEdDSAError::InvalidScalar) => Err(VXEdDSAError::InvalidScalar),
    }
}

// ---------------------------------------------------------------------------
// Key agreement
// ---------------------------------------------------------------------------

/// What the initiator of a key agreement gets.
pub(crate) struct Initiation {
    pub shared_secret: [u8; 32],
    pub ephemeral_public: [u8; 33],
}

/// The secret that the initiator computes from its identity secret, its ephemeral secret and the
/// contact's identity key, signed pre-key and one-time pre-key.
pub uninterp spec fn x3dh_secret(
    identity_secret: Seq<u8>,
    ephemeral_secret: Seq<u8>,
    identity_key: Seq<u8>,
    signed_prekey: Seq<u8>,
    one_time_prekey: Option<Seq<u8>>,
) -> Seq<u8>;

/// Whether `signature` is `identity_key`'s signature of `signed_prekey`.
pub open spec fn prekey_verifies(
    identity_key: Seq<u8>,
    signed_prekey: Seq<u8>,
    signature: Seq<u8>,
) -> bool {
    vxeddsa_verified(identity_key, signed_prekey, signature) is Some
}

/// The secret that the responder computes from its own secrets and the initiator's public keys.
pub uninterp spec fn x3dh_response(
    identity_secret: Seq<u8>,
    signed_prekey_secret: Seq<u8>,
    one_time_prekey_secret: Option<Seq<u8>>,
    identity_key: Seq<u8>,
    ephemeral_key: Seq<u8>,
) -> Seq<u8>;

/// The public keys of a bundle, in the order in which they are looked at.
pub open spec fn bundle_keys(b: Bundle) -> Seq<Seq<u8>> {
    match b.one_time_prekey {
        Some(k) => seq![b.identity_key, b.signed_prekey, k.1],
        None => seq![b.identity_key, b.signed_prekey],
    }
}

/// Why an agreement on `b` is refused, if it is; `verified` says whether the signature of its
/// signed pre-key verifies.
pub open spec fn bundle_fault(b: Bundle, verified: bool) -> Option<X3DHError> {
    if any_refused(bundle_keys(b)) {
        Some(X3DHError::InvalidKey)
    } else if !verified {
        Some(X3DHError::InvalidSignature)
    } else {
        None
    }
}

/// The error of an initiation, if it failed.
pub(crate) open spec fn initiation_fault(r: Result<Initiation, X3DHError>) -> Option<X3DHError> {
    match r {
        Ok(_) => None,
        Err(e) => Some(e),
    }
}

/// The contents of a response.
pub open spec fn response_view(r: Result<[u8; 32], X3DHError>) -> Result<Seq<u8>, X3DHError> {
    match r {
        Ok(s) => Ok(s@),
        Err(e) => Err(e),
    }
}

/// The bytes of a key that may be absent.
pub open spec fn optional_bytes(key: Option<&[u8; 32]>) -> Option<Seq<u8>> {
    match key {
        Some(k) => Some(k@),
        None => None,
    }
}

/// The public key of a secret that may be absent.
pub open spec fn optional_public(secret: Option<Seq<u8>>) -> Option<Seq<u8>> {
    match secret {
        Some(s) => Some(curve_public(s)),
        None => None,
    }
}

/// `libsignal_dezire::x3dh::x3dh_initiator`. It refuses keys of small order or with a wrong prefix
/// and a pre-key whose signature does not verify, and otherwise draws an ephemeral secret and
/// computes the shared secret. It panics at the first key that is off the curve.
#[verifier::external_body]
pub(crate) fn x3dh_initiate(identity_secret: &[u8; 32], bundle: &PreKeyBundle) -> (r: Result<
    Initiation,
    X3DHError,
>)
    requires
        all_readable(bundle_keys(bundle@)),
    ensures
        initiation_fault(r) == bundle_fault(
            bundle@,
            vxeddsa_verified(bundle@.identity_key, bundle@.signed_prekey, bundle@.signature) is Some,
        ),
        r matches Ok(i) ==> well_encoded(i.ephemeral_public@) && (exists|e: Seq<u8>|
            e.len() == 32 && i.ephemeral_public@ == #[trigger] curve_public(e)
                && i.shared_secret@ == x3dh_secret(
                identity_secret@,
                e,
                bundle@.identity_key,
                bundle@.signed_prekey,
                bundle@.one_time_key(),
            )),
{
    let k = &bundle.signed_prekey;
    let signed_prekey = x3dh::SignedPreKey { id: k.id, public_key: k.public_key, signature: k.signature };
    let one_time = bundle.one_time_prekey.as_ref();
    let one_time_prekey = one_time.map(|o| x3dh::OneTimePreKey { id: o.id, public_key: o.public_key });
    let b = x3dh::PreKeyBundle { identity_key: bundle.identity_key, signed_prekey, one_time_prekey };
    match x3dh::x3dh_initiator(identity_secret, &b) {
        Ok(i) => Ok(Initiation { shared_secret: i.shared_secret, ephemeral_public: i.ephemeral_public }),
        Err(x3dh::X3DHError::InvalidSignature) => Err(X3DHError::InvalidSignature),
        Err(x3dh::X3DHError::InvalidKey) => Err(X3DHError::InvalidKey),
        Err(x3dh::X3DHError::MissingOneTimeKey) => Err(X3DHError::MissingOneTimeKey),
        Err(x3dh::X3DHError::DecodeFailed) => Err(X3DHError::DecodeFailed),
    }
}

/// `libsignal_dezire::x3dh::x3dh_responder`. It refuses public keys of small order or with a wrong
/// prefix, and otherwise computes the shared secret from its arguments alone. The public keys of an
/// initiator's secrets it accepts, and the result is then the secret which the initiator computes
/// from the responder's public keys. It panics at the first key that is off the curve.
#[verifier::external_body]
pub(crate) fn x3dh_respond(
    identity_secret: &[u8; 32],
    signed_prekey_secret: &[u8; 32],
    one_time_secret: Option<&[u8; 32]>,
    identity_key: &[u8; 33],
    ephemeral_key: &[u8; 33],
) -> (r: Result<[u8; 32], X3DHError>)
    requires
        all_readable(seq![identity_key@, ephemeral_key@]),
    ensures
        response_view(r) == if any_refused(seq![identity_key@, ephemeral_key@]) {
            Err(X3DHError::InvalidKey)
        } else {
            Ok(
                x3dh_response(
                    identity_secret@,
                    signed_prekey_secret@,
                    optional_bytes(one_time_secret),
                    identity_key@,
                    ephemeral_key@,
                ),
            )
        },
        (forall|a: Seq<u8>, e: Seq<u8>|
            a.len() == 32 && e.len() == 32 && identity_key@ == #[trigger] curve_public(a)
                && ephemeral_key@ == #[trigger] curve_public(e) ==> r is Ok && r->Ok_0@
                == x3dh_secret(
                a,
                e,
                curve_public(identity_secret@),
                curve_public(signed_prekey_secret@),
                optional_public(optional_bytes(one_time_secret)),
            )),
{
    match x3dh::x3dh_responder(
        identity_secret, signed_prekey_secret, one_time_secret, identity_key, ephemeral_key,
    ) {
        Ok(secret) => Ok(secret),
        Err(x3dh::X3DHError::InvalidSignature) => Err(X3DHError::InvalidSignature),
        Err(x3dh::X3DHError::InvalidKey) => Err(X3DHError::InvalidKey),
        Err(x3dh::X3DHError::MissingOneTimeKey) => Err(X3DHError::MissingOneTimeKey),
        Err(x3dh::X3DHError::DecodeFailed) => Err(X3DHError::DecodeFailed),
    }
}

// ---------------------------------------------------------------------------
// Ratchet sessions
// ---------------------------------------------------------------------------

/// `libsignal_dezire`'s Double Ratchet session state. Two states are the same when every key,
/// counter and stored message key is.
#[verifier::external_type_specification]
#[verifier::external_body]
pub struct ExRatchetState(RatchetState);

/// The state of a session's initiator that draws `seed` as its first ratchet secret.
pub uninterp spec fn sender_state(
    shared_secret: Seq<u8>,
    remote_key: Seq<u8>,
    seed: Seq<u8>,
) -> RatchetState;

/// The state of a session's responder.
pub uninterp spec fn receiver_state(
    shared_secret: Seq<u8>,
    secret_key: Seq<u8>,
    public_key: Seq<u8>,
) -> RatchetState;

/// What encrypting gives, header and ciphertext or the name of the error, and the state after it.
pub uninterp spec fn sealed(state: RatchetState, plaintext: Seq<u8>, ad: Seq<u8>) -> (
    Result<(Seq<u8>, Seq<u8>), Seq<char>>,
    RatchetState,
);

/// What decrypting gives, the plaintext or the name of the error, and the state after it, when
/// `chance` is what the random generator, the clock and the order of stored keys contribute.
pub uninterp spec fn opened(
    state: RatchetState,
    header: Seq<u8>,
    ciphertext: Seq<u8>,
    ad: Seq<u8>,
    chance: Seq<u8>,
) -> (Result<Seq<u8>, Seq<char>>, RatchetState);

/// `libsignal_dezire::ratchet::init_sender_state`, which draws a ratchet secret of 32 bytes. Its
/// key derivation has a fixed output length and does not fail.
#[verifier::external_body]
pub(crate) fn init_sender_state(shared_secret: [u8; 32], remote_key: [u8; 32]) -> (r: Result<
    RatchetState,
    String,
>)
    ensures
        r is Ok,
        r matches Ok(state) ==> (exists|seed: Seq<u8>|
            seed.len() == 32 && state == #[trigger] sender_state(shared_secret@, remote_key@, seed)),
{
    let key = libsignal_dezire::ratchet::DhPublicKey::from(remote_key);
    libsignal_dezire::ratchet::init_sender_state(shared_secret, key).map_err(|e| format!("{:?}", e))
}

/// `libsignal_dezire::ratchet::init_receiver_state`.
#[verifier::external_body]
pub(crate) fn init_receiver_state(
    shared_secret: [u8; 32],
    secret_key: [u8; 32],
    public_key: [u8; 32],
) -> (r: RatchetState)
    ensures
        r == receiver_state(shared_secret@, secret_key@, public_key@),
{
    let secret = libsignal_dezire::ratchet::DhPrivateKey::from(secret_key);
    let public = libsignal_dezire::ratchet::DhPublicKey::from(public_key);
    libsignal_dezire::ratchet::init_receiver_state(shared_secret, (secret, public))
}

/// A message that was encrypted: the plaintext and the associated data.
#[verifier::ext_equal]
pub struct Sealing {
    pub plaintext: Seq<u8>,
    pub ad: Seq<u8>,
}

/// The start of a session.
#[verifier::ext_equal]
pub struct Opening {
    /// The secret that both ends have agreed on.
    pub shared_secret: Seq<u8>,
    /// The responder's signed pre-key, without its prefix.
    pub remote_key: Seq<u8>,
    /// The initiator's first ratchet secret.
    pub seed: Seq<u8>,
}

impl Opening {
    /// Whether the keys have their lengths.
    pub open spec fn valid(self) -> bool {
        self.shared_secret.len() == 32 && self.remote_key.len() == 32 && self.seed.len() == 32
    }

    /// The initiator's state after it has encrypted the messages `sent`.
    pub open spec fn speaker(self, sent: Seq<Sealing>) -> RatchetState
        decreases sent.len(),
    {
        if sent.len() == 0 {
            sender_state(self.shared_secret, self.remote_key, self.seed)
        } else {
            sealed(self.speaker(sent.drop_last()), sent.last().plaintext, sent.last().ad).1
        }
    }

    /// What encrypting the message at `i` gave.
    pub open spec fn packet(self, sent: Seq<Sealing>, i: int) -> Result<
        (Seq<u8>, Seq<u8>),
        Seq<char>,
    > {
        sealed(self.speaker(sent.take(i)), sent[i].plaintext, sent[i].ad).0
    }

    /// Whether every message of `sent` could be encrypted.
    pub open spec fn all_sealed(self, sent: Seq<Sealing>) -> bool {
        forall|i: int| 0 <= i < sent.len() ==> #[trigger] self.packet(sent, i) is Ok
    }

    /// Whether `prekey_secret` is the secret of the responder's signed pre-key.
    pub open spec fn answered_by(self, prekey_secret: Seq<u8>) -> bool {
        prekey_secret.len() == 32 && self.remote_key == curve_public(prekey_secret).skip(1)
    }

    /// The responder's state after the turns `log`.
    pub open spec fn responder(
        self,
        prekey_secret: Seq<u8>,
        sent: Seq<Sealing>,
        log: Seq<Turn>,
    ) -> RatchetState
        decreases log.len(),
    {
        if log.len() == 0 {
            receiver_state(self.shared_secret, prekey_secret, self.remote_key)
        } else {
            let before = self.responder(prekey_secret, sent, log.drop_last());
            match log.last() {
                Turn::Hear(i, chance) => {
                    let packet = self.packet(sent, i as int)->Ok_0;
                    opened(before, packet.0, packet.1, sent[i as int].ad, chance).1
                },
                Turn::Reply(s) => sealed(before, s.plaintext, s.ad).1,
            }
        }
    }

    /// What encrypting the replies of `log` gave, in order.
    pub open spec fn reply_packets(
        self,
        prekey_secret: Seq<u8>,
        sent: Seq<Sealing>,
        log: Seq<Turn>,
    ) -> Seq<Result<(Seq<u8>, Seq<u8>), Seq<char>>>
        decreases log.len(),
    {
        if log.len() == 0 {
            Seq::empty()
        } else {
            let rest = log.drop_last();
            let before = self.reply_packets(prekey_secret, sent, rest);
            match log.last() {
                Turn::Hear(..) => before,
                Turn::Reply(s) => before.push(
                    sealed(self.responder(prekey_secret, sent, rest), s.plaintext, s.ad).0,
                ),
            }
        }
    }

    /// The initiator's state after it has encrypted the messages `sent` and then decrypted the
    /// replies in `hearing`, each with what its ratchet drew for it.
    pub open spec fn initiator(
        self,
        prekey_secret: Seq<u8>,
        sent: Seq<Sealing>,
        log: Seq<Turn>,
        hearing: Seq<(nat, Seq<u8>)>,
    ) -> RatchetState
        decreases hearing.len(),
    {
        if hearing.len() == 0 {
            self.speaker(sent)
        } else {
            let last = hearing.last();
            let packet = self.reply_packets(prekey_secret, sent, log)[last.0 as int]->Ok_0;
            opened(
                self.initiator(prekey_secret, sent, log, hearing.drop_last()),
                packet.0,
                packet.1,
                replies_in(log)[last.0 as int].ad,
                last.1,
            ).1
        }
    }
}

/// What the responder of a session does.
pub enum Turn {
    /// It decrypts the initiator's message with the given number, and its ratchet draws the bytes.
    Hear(nat, Seq<u8>),
    /// It encrypts a reply.
    Reply(Sealing),
}

/// The numbers of the messages that were decrypted, in order.
pub open spec fn heard_in(log: Seq<Turn>) -> Seq<nat>
    decreases log.len(),
{
    if log.len() == 0 {
        Seq::empty()
    } else {
        match log.last() {
            Turn::Hear(i, _) => heard_in(log.drop_last()).push(i),
            Turn::Reply(_) => heard_in(log.drop_last()),
        }
    }
}

/// The replies that were encrypted, in order.
pub open spec fn replies_in(log: Seq<Turn>) -> Seq<Sealing>
    decreases log.len(),
{
    if log.len() == 0 {
        Seq::empty()
    } else {
        match log.last() {
            Turn::Hear(..) => replies_in(log.drop_last()),
            Turn::Reply(s) => replies_in(log.drop_last()).push(s),
        }
    }
}

/// The numbers of the replies that were decrypted, in order.
pub open spec fn numbers_of(hearing: Seq<(nat, Seq<u8>)>) -> Seq<nat>
    decreases hearing.len(),
{
    if hearing.len() == 0 {
        Seq::empty()
    } else {
        numbers_of(hearing.drop_last()).push(hearing.last().0)
    }
}

/// Where a receiving chain stands after it has decrypted the messages with the numbers `order`: its
/// counter, and the numbers whose keys it stores.
///
/// A message whose key is stored takes that key and leaves the counter alone. Any other message
/// stores the keys from the counter up to its own number, also of messages that were decrypted
/// before, and moves the counter by one.
pub open spec fn chain_after(order: Seq<nat>) -> (nat, Set<int>)
    decreases order.len(),
{
    if order.len() == 0 {
        (0, Set::empty())
    } else {
        let (count, stored) = chain_after(order.drop_last());
        let i = order.last() as int;
        if stored.contains(i) {
            (count, stored.remove(i))
        } else {
            (count + 1, stored.union(set_int_range(count as int, i)))
        }
    }
}

/// The most messages that a session decrypts on one chain.
pub open spec fn chain_limit() -> nat {
    10000
}

/// How far ahead of a chain's counter a message may lie.
pub open spec fn skip_limit() -> nat {
    1000
}

/// The number of stored keys at which a chain drops old ones before it stores another.
pub open spec fn store_limit() -> nat {
    2000
}

/// Whether messages of one chain can be decrypted in the given order of their numbers: none comes
/// twice, and each either has its key stored or lies within reach of the counter, without a key
/// having to be dropped for it.
pub open spec fn orderly(order: Seq<nat>) -> bool
    decreases order.len(),
{
    order.len() == 0 || {
        let before = order.drop_last();
        let (count, stored) = chain_after(before);
        let i = order.last() as int;
        &&& orderly(before)
        &&& !before.contains(order.last())
        &&& order.len() <= chain_limit()
        &&& {
            ||| stored.contains(i)
            ||| i == count
            ||| count < i <= count + skip_limit() && stored.union(
                set_int_range(count as int, i - 1),
            ).len() < store_limit()
        }
    }
}

/// A first exchange: the initiator has sent messages, the responder has decrypted some of them, in
/// any order, and replied in between, and the initiator has then decrypted some replies.
#[verifier::ext_equal]
pub struct Exchange {
    pub opening: Opening,
    /// The secret of the responder's signed pre-key.
    pub prekey_secret: Seq<u8>,
    /// The initiator's messages.
    pub sent: Seq<Sealing>,
    /// The responder's turns.
    pub log: Seq<Turn>,
    /// The numbers of the replies that the initiator has decrypted, each with what its ratchet drew.
    pub hearing: Seq<(nat, Seq<u8>)>,
}

impl Exchange {
    /// The responder's state.
    pub open spec fn responder(self) -> RatchetState {
        self.opening.responder(self.prekey_secret, self.sent, self.log)
    }

    /// The initiator's state.
    pub open spec fn initiator(self) -> RatchetState {
        self.opening.initiator(self.prekey_secret, self.sent, self.log, self.hearing)
    }

    /// What encrypting the message with the given number gave.
    pub open spec fn packet(self, i: nat) -> Result<(Seq<u8>, Seq<u8>), Seq<char>> {
        self.opening.packet(self.sent, i as int)
    }

    /// What encrypting the reply with the given number gave.
    pub open spec fn reply_packet(self, j: nat) -> Result<(Seq<u8>, Seq<u8>), Seq<char>> {
        self.opening.reply_packets(self.prekey_secret, self.sent, self.log)[j as int]
    }

    /// The numbers of the messages that the responder has decrypted.
    pub open spec fn heard(self) -> Seq<nat> {
        heard_in(self.log)
    }

    /// The responder's replies.
    pub open spec fn replies(self) -> Seq<Sealing> {
        replies_in(self.log)
    }

    /// The numbers of the replies that the initiator has decrypted.
    pub open spec fn replies_heard(self) -> Seq<nat> {
        numbers_of(self.hearing)
    }

    /// Whether the message with the given number can be decrypted next.
    pub open spec fn expects(self, i: nat) -> bool {
        i < self.sent.len() && orderly(self.heard().push(i))
    }

    /// Whether the reply with the given number can be decrypted next.
    pub open spec fn expects_reply(self, j: nat) -> bool {
        j < self.replies().len() && orderly(self.replies_heard().push(j))
    }

    /// Whether all of this can have happened: every message and reply could be encrypted, what was
    /// decrypted was sent and came in a possible order, and the responder has decrypted a message
    /// before it replied.
    pub open spec fn valid(self) -> bool {
        let packets = self.opening.reply_packets(self.prekey_secret, self.sent, self.log);
        &&& self.opening.valid()
        &&& self.opening.answered_by(self.prekey_secret)
        &&& self.opening.all_sealed(self.sent)
        &&& self.log.len() > 0 ==> self.log[0] is Hear
        &&& orderly(self.heard())
        &&& forall|k: int|
            0 <= k < self.heard().len() ==> #[trigger] self.heard()[k] < self.sent.len()
        &&& forall|j: int| 0 <= j < packets.len() ==> #[trigger] packets[j] is Ok
        &&& orderly(self.replies_heard())
        &&& forall|k: int|
            0 <= k < self.replies_heard().len() ==> #[trigger] self.replies_heard()[k]
                < self.replies().len()
    }
}

/// The contents of an encryption result.
pub open spec fn sealing_view(r: Result<(Vec<u8>, Vec<u8>), String>) -> Result<
    (Seq<u8>, Seq<u8>),
    Seq<char>,
> {
    match r {
        Ok(p) => Ok((p.0@, p.1@)),
        Err(e) => Err(e@),
    }
}

/// `libsignal_dezire::ratchet::encrypt`, which is a function of the state, the plaintext and the
/// associated data. With up to 64 KiB of associated data it succeeds until the message counter runs
/// out: for the initiator of a session from the start, for the responder once it has decrypted a
/// message, and for the initiator again when it has decrypted a reply.
#[verifier::external_body]
pub(crate) fn ratchet_encrypt(state: &mut RatchetState, plaintext: &[u8], ad: &[u8]) -> (r: Result<
    (Vec<u8>, Vec<u8>),
    String,
>)
    ensures
        (sealing_view(r), *final(state)) == sealed(*old(state), plaintext@, ad@),
        (forall|o: Opening, sent: Seq<Sealing>|
            o.valid() && sent.len() < u32::MAX && o.all_sealed(sent) && ad@.len() <= 65536
                && *old(state) == #[trigger] o.speaker(sent) ==> r is Ok),
        (forall|x: Exchange|
            x.valid() && x.log.len() > 0 && x.replies().len() < u32::MAX && ad@.len() <= 65536
                && *old(state) == #[trigger] x.responder() ==> r is Ok),
        (forall|x: Exchange|
            x.valid() && x.hearing.len() > 0 && ad@.len() <= 65536 && *old(state)
                == #[trigger] x.initiator() ==> r is Ok),
{
    libsignal_dezire::ratchet::encrypt(state, plaintext, ad).map_err(|e| format!("{:?}", e))
}

/// The counter of a session's receiving chain, as it stands in the session's JSON form, or why the
/// session has none (`serde_json::to_value`).
pub uninterp spec fn received_count(state: RatchetState) -> Result<u32, Seq<char>>;

/// The contents of a number of messages.
pub open spec fn count_view(r: Result<u32, String>) -> Result<u32, Seq<char>> {
    match r {
        Ok(n) => Ok(n),
        Err(e) => Err(e@),
    }
}

/// `serde_json::to_value` of a session, of which the field `nr` is read. In a first exchange that
/// is the counter of [`chain_after`]. A session has a JSON form unless it stores a key with a time
/// before the Unix epoch.
#[verifier::external_body]
pub(crate) fn ratchet_received(state: &RatchetState) -> (r: Result<u32, String>)
    ensures
        count_view(r) == received_count(*state),
        (forall|x: Exchange|
            x.valid() && *state == #[trigger] x.responder() ==> (r matches Ok(n) ==> n
                == chain_after(x.heard()).0) && (chain_after(x.heard()).1 == Set::<int>::empty()
                ==> r is Ok)),
        (forall|x: Exchange|
            x.valid() && *state == #[trigger] x.initiator() ==> (r matches Ok(n) ==> n
                == chain_after(x.replies_heard()).0) && (chain_after(x.replies_heard()).1
                == Set::<int>::empty() ==> r is Ok)),
{
    let json = serde_json::to_value(state);
    json.and_then(|mut v| serde_json::from_value(v["nr"].take())).map_err(|e| e.to_string())
}

/// The highest counter with which the receiving ratchet can tell whether a message lies too far
/// ahead.
pub const RECEIVE_LIMIT: u32 = 0xffff_fc17;

/// `libsignal_dezire::ratchet::decrypt`. Besides its arguments it depends on chance: it draws keys,
/// reads the clock and walks a hash map. Past [`RECEIVE_LIMIT`] its counter arithmetic overflows on
/// a message of the current chain whose key is not stored. Which messages these are stands in the
/// encrypted header, which no public function reads.
///
/// The responder of a session decrypts the messages that the initiator sent before it heard a reply,
/// and the initiator the replies to those messages, in any [`orderly`] order.
///
/// Not promised here is what becomes of messages that the initiator sends after it has heard a
/// reply, and of all that follows: there headers are tried under several keys, and the outcome rests
/// on headers failing to authenticate under the others.
#[verifier::external_body]
pub(crate) fn ratchet_decrypt(
    state: &mut RatchetState,
    header: &[u8],
    ciphertext: &[u8],
    ad: &[u8],
) -> (r: Result<Vec<u8>, String>)
    requires
        received_count(*old(state)) is Ok,
        received_count(*old(state))->Ok_0 <= RECEIVE_LIMIT,
    ensures
        exists|chance: Seq<u8>|
            (bytes_or_text(r), *final(state)) == #[trigger] opened(
                *old(state),
                header@,
                ciphertext@,
                ad@,
                chance,
            ),
        (forall|x: Exchange, i: nat|
            #![trigger x.responder(), x.packet(i)]
            x.valid() && x.expects(i) && *old(state) == x.responder() && ad@ == x.sent[i as int].ad
                && x.packet(i) == Ok::<(Seq<u8>, Seq<u8>), Seq<char>>((header@, ciphertext@))
                ==> r is Ok && r->Ok_0@ == x.sent[i as int].plaintext),
        (forall|x: Exchange, j: nat|
            #![trigger x.initiator(), x.reply_packet(j)]
            x.valid() && x.expects_reply(j) && *old(state) == x.initiator() && ad@
                == x.replies()[j as int].ad && x.reply_packet(j) == Ok::<
                (Seq<u8>, Seq<u8>),
                Seq<char>,
            >((header@, ciphertext@)) ==> r is Ok && r->Ok_0@ == x.replies()[j as int].plaintext),
{
    libsignal_dezire::ratchet::decrypt(state, header, ciphertext, ad).map_err(|e| format!("{:?}", e))
}

}
