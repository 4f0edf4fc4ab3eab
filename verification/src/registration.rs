//! Device registration.
//!
//! Registration is a chain of steps, each of which says what it needs and takes the answer. It
//! starts with [`begin_registration`] and ends in [`RegisterStep::Done`] or
//! [`RegisterStep::Failed`]. The server comes first: keys are saved only once the server has
//! accepted the device.
use vstd::prelude::*;
use vstd::string::*;
use vstd::utf8::*;

use crate::crypto::{bundle_of, law_encoded_bundle_is_read_back};
use crate::crypto::{generate_registration_keys, RegistrationKeys};
use crate::encoding::{b64, b64_decoded, law_b64_is_read_back};
use crate::error::{Failure, SdkError, VXEdDSAError};
use crate::oauth::{google_pkce_request, GoogleRegisterResponse, OAuthRegisterRequest};
use crate::receive::{first_stage, is_pair, pair_view, saved_view, Published, Stage};
use crate::sending::{optional_str, reply_bundle, AwaitContactSession, SendStage};
use crate::session::{can_encrypt, envelope_of, optional_text, Contact, Envelope, Intro};
use crate::signal::{all_readable, attests, bundle_keys, readable, refused, verifiable};
use crate::signal::{vxeddsa_signed, Bundle, KeyPair, SIGNED_PRE_KEY_ID};
use crate::transport::{checks_out, key_bytes, law_registration_can_be_checked, registration};
use crate::transport::{registration_view, ApiClient, BundleResponse, DeviceRegisterRequest};
use crate::transport::{DeviceRegisterResponse, Registration};

verus! {

// ---------------------------------------------------------------------------
// Keys
// ---------------------------------------------------------------------------

/// The contents of a set of registration keys, each as secret and public key.
#[verifier::ext_equal]
pub struct KeySet {
    pub identity: (Seq<u8>, Seq<u8>),
    pub signed_pre_key: (Seq<u8>, Seq<u8>),
    pub signed_device_key: (Seq<u8>, Seq<u8>),
    pub opks: Seq<(Seq<u8>, Seq<u8>)>,
}

/// The contents of a key pair.
pub open spec fn key_pair_view(k: KeyPair) -> (Seq<u8>, Seq<u8>) {
    (k.secret@, k.public@)
}

impl View for RegistrationKeys {
    type V = KeySet;

    open spec fn view(&self) -> KeySet {
        KeySet {
            identity: key_pair_view(self.identity_key),
            signed_pre_key: key_pair_view(self.signed_pre_key),
            signed_device_key: key_pair_view(self.signed_device_key),
            opks: self.opks@.map_values(|k: KeyPair| key_pair_view(k)),
        }
    }
}

/// The public halves of one-time pre-keys, in order.
pub open spec fn opk_publics(opks: Seq<(Seq<u8>, Seq<u8>)>) -> Seq<Seq<u8>> {
    opks.map_values(|k: (Seq<u8>, Seq<u8>)| k.1)
}

/// One-time pre-keys as they are stored: each under its position, counted in 32 bits.
pub open spec fn opk_entries(opks: Seq<(Seq<u8>, Seq<u8>)>) -> Seq<(u32, Seq<u8>, Seq<u8>)> {
    opks.map(|i: int, k: (Seq<u8>, Seq<u8>)| ((i % 0x1_0000_0000) as u32, k.0, k.1))
}

/// The contents of a list of stored one-time pre-keys.
pub open spec fn entries_view(entries: Seq<(u32, [u8; 32], [u8; 33])>) -> Seq<
    (u32, Seq<u8>, Seq<u8>),
> {
    entries.map_values(|e: (u32, [u8; 32], [u8; 33])| (e.0, e.1@, e.2@))
}

impl RegistrationKeys {
    /// The public halves of the one-time pre-keys, in order.
    pub fn opk_public_keys(&self) -> (r: Vec<[u8; 33]>)
        ensures
            key_bytes(r@) == opk_publics(self@.opks),
    {
        let mut out: Vec<[u8; 33]> = Vec::new();
        for i in 0..self.opks.len()
            invariant
                out@.len() == i,
                i <= self.opks@.len(),
                forall|j: int| 0 <= j < i ==> (#[trigger] out@[j])@ == self.opks@[j].public@,
        {
            out.push(self.opks[i].public);
        }
        assert(key_bytes(out@) =~= opk_publics(self@.opks));
        out
    }

    /// The one-time pre-keys as they are stored: each under its position.
    pub fn opk_entries(&self) -> (r: Vec<(u32, [u8; 32], [u8; 33])>)
        ensures
            entries_view(r@) == opk_entries(self@.opks),
    {
        let mut out: Vec<(u32, [u8; 32], [u8; 33])> = Vec::new();
        for i in 0..self.opks.len()
            invariant
                out@.len() == i,
                i <= self.opks@.len(),
                forall|j: int|
                    0 <= j < i ==> (#[trigger] out@[j]).0 == (j % 0x1_0000_0000) as u32
                        && out@[j].1@ == self.opks@[j].secret@ && out@[j].2@
                        == self.opks@[j].public@,
        {
            let id: u64 = i as u64 % 0x1_0000_0000;
            out.push((id as u32, self.opks[i].secret, self.opks[i].public));
        }
        assert(entries_view(out@) =~= opk_entries(self@.opks));
        out
    }
}

// ---------------------------------------------------------------------------
// Steps
// ---------------------------------------------------------------------------

/// Needs the OAuth exchange, with the public identity key.
pub struct AwaitOAuth {
    pub keys: RegistrationKeys,
    pub phone: String,
}

/// Needs the device registered with the server, under the state of the OAuth exchange.
pub struct AwaitDevice {
    pub keys: RegistrationKeys,
    pub phone: String,
    pub state: String,
}

/// The ids that the server assigned.
pub struct DeviceIds {
    pub user_id: String,
    pub device_id: String,
}

/// Needs the identity key saved.
pub struct AwaitIdentitySave {
    pub keys: RegistrationKeys,
    pub ids: DeviceIds,
}

/// Needs the signed pre-key saved, under `key_id`.
pub struct AwaitPreKeySave {
    pub keys: RegistrationKeys,
    pub key_id: u32,
    pub ids: DeviceIds,
}

/// Needs the one-time pre-keys saved.
pub struct AwaitOpkSave {
    pub opks: Vec<(u32, [u8; 32], [u8; 33])>,
    pub ids: DeviceIds,
}

/// A step of a registration.
pub enum RegisterStep {
    OAuth(AwaitOAuth),
    Device(AwaitDevice),
    SaveIdentity(AwaitIdentitySave),
    SavePreKey(AwaitPreKeySave),
    SaveOpks(AwaitOpkSave),
    Done(DeviceIds),
    Failed(SdkError),
}

/// The contents of a [`RegisterStep`]. Ids stand as user id and device id.
#[verifier::ext_equal]
pub enum RegisterStage {
    OAuth(KeySet, Seq<char>),
    Device(KeySet, Seq<char>, Seq<char>),
    SaveIdentity(KeySet, (Seq<char>, Seq<char>)),
    SavePreKey(KeySet, u32, (Seq<char>, Seq<char>)),
    SaveOpks(Seq<(u32, Seq<u8>, Seq<u8>)>, (Seq<char>, Seq<char>)),
    Done((Seq<char>, Seq<char>)),
    Failed(Failure),
}

/// The contents of a pair of ids.
pub open spec fn ids_view(ids: DeviceIds) -> (Seq<char>, Seq<char>) {
    (ids.user_id@, ids.device_id@)
}

impl View for RegisterStep {
    type V = RegisterStage;

    open spec fn view(&self) -> RegisterStage {
        match self {
            RegisterStep::OAuth(s) => RegisterStage::OAuth(s.keys@, s.phone@),
            RegisterStep::Device(s) => RegisterStage::Device(s.keys@, s.phone@, s.state@),
            RegisterStep::SaveIdentity(s) => RegisterStage::SaveIdentity(s.keys@, ids_view(s.ids)),
            RegisterStep::SavePreKey(s) => RegisterStage::SavePreKey(
                s.keys@,
                s.key_id,
                ids_view(s.ids),
            ),
            RegisterStep::SaveOpks(s) => RegisterStage::SaveOpks(
                entries_view(s.opks@),
                ids_view(s.ids),
            ),
            RegisterStep::Done(ids) => RegisterStage::Done(ids_view(*ids)),
            RegisterStep::Failed(e) => RegisterStage::Failed(e@),
        }
    }
}

/// Starts a registration with freshly generated keys.
pub fn begin_registration(opk_count: u32, phone: &str) -> (r: AwaitOAuth)
    ensures
        r.keys.paired(),
        r.keys.opks@.len() == opk_count,
        r.phone@ == phone@,
{
    AwaitOAuth { keys: generate_registration_keys(opk_count), phone: phone.to_owned() }
}

impl AwaitOAuth {
    /// The step after the OAuth exchange.
    pub open spec fn next(self, reply: Result<GoogleRegisterResponse, SdkError>) -> RegisterStage {
        match reply {
            Err(e) => RegisterStage::Failed(e@),
            Ok(g) => RegisterStage::Device(self.keys@, self.phone@, g.state@),
        }
    }

    /// The request for the OAuth exchange.
    pub fn request(
        &self,
        base_url: &str,
        code: &str,
        code_verifier: Option<&str>,
        redirect_uri: &str,
    ) -> (r: (String, OAuthRegisterRequest))
        ensures
            r.0@ == base_url@ + "/register/google/pkce"@,
            r.1.code@ == code@,
            optional_text(r.1.code_verifier) == optional_str(code_verifier),
            r.1.redirect_uri@ == redirect_uri@,
            r.1.i_key@ == b64(self.keys@.identity.1),
            r.1.i_key@ == b64(self.keys.identity_key.public@),
    {
        google_pkce_request(
            base_url,
            code,
            code_verifier,
            redirect_uri,
            &self.keys.identity_key.public,
        )
    }

    /// Takes the reply to the OAuth exchange.
    pub fn resume(self, reply: Result<GoogleRegisterResponse, SdkError>) -> (r: RegisterStep)
        ensures
            r@ == self.next(reply),
            reply matches Ok(g) ==> r == RegisterStep::Device(
                AwaitDevice { keys: self.keys, phone: self.phone, state: g.state },
            ),
            reply matches Err(e) ==> r == RegisterStep::Failed(e),
    {
        match reply {
            Err(e) => RegisterStep::Failed(e),
            Ok(g) => RegisterStep::Device(
                AwaitDevice { keys: self.keys, phone: self.phone, state: g.state },
            ),
        }
    }
}

impl AwaitDevice {
    /// The step after the server was asked to register the device.
    pub open spec fn next(self, reply: Result<DeviceRegisterResponse, SdkError>) -> RegisterStage {
        match reply {
            Err(e) => RegisterStage::Failed(e@),
            Ok(d) => RegisterStage::SaveIdentity(self.keys@, (d.user_id@, d.device_id@)),
        }
    }

    /// The request that registers the device: the public keys, with the state, the signed pre-key
    /// and the signed device key signed by the identity key.
    pub fn request(&self, api: &ApiClient) -> (r: Result<(String, DeviceRegisterRequest), SdkError>)
        ensures
            r matches Ok(p) ==> p.0@ == api.base_url@ + "/register/device"@,
            exists|n1: Seq<u8>, n2: Seq<u8>, n3: Seq<u8>|
                registration_view(r) == registration(
                    self.state@,
                    self.phone@,
                    self.keys@.signed_pre_key.1,
                    self.keys@.signed_device_key.1,
                    opk_publics(self.keys@.opks),
                    #[trigger] vxeddsa_signed(
                        self.keys@.identity.0,
                        encode_utf8(self.state@),
                        n1,
                    ),
                    #[trigger] vxeddsa_signed(
                        self.keys@.identity.0,
                        self.keys@.signed_pre_key.1,
                        n2,
                    ),
                    #[trigger] vxeddsa_signed(
                        self.keys@.identity.0,
                        self.keys@.signed_device_key.1,
                        n3,
                    ),
                ) && attests(self.keys@.identity.0, encode_utf8(self.state@), n1) && attests(
                    self.keys@.identity.0,
                    self.keys@.signed_pre_key.1,
                    n2,
                ) && attests(self.keys@.identity.0, self.keys@.signed_device_key.1, n3),
    {
        let opks = self.keys.opk_public_keys();
        let r = api.device_registration(
            self.state.as_str(),
            self.phone.as_str(),
            &self.keys.identity_key.secret,
            &self.keys.signed_pre_key.public,
            &self.keys.signed_device_key.public,
            opks.as_slice(),
        );
        proof {
            let secret = self.keys.identity_key.secret@;
            let spk = self.keys.signed_pre_key.public@;
            let sdk = self.keys.signed_device_key.public@;
            let state = encode_utf8(self.state@);
            let (n1, n2, n3) = choose|n1: Seq<u8>, n2: Seq<u8>, n3: Seq<u8>|
                registration_view(r) == registration(
                    self.state@,
                    self.phone@,
                    spk,
                    sdk,
                    key_bytes(opks@),
                    #[trigger] vxeddsa_signed(secret, state, n1),
                    #[trigger] vxeddsa_signed(secret, spk, n2),
                    #[trigger] vxeddsa_signed(secret, sdk, n3),
                ) && attests(secret, state, n1) && attests(secret, spk, n2) && attests(
                    secret,
                    sdk,
                    n3,
                );
            let keys = self.keys@;
            assert(vxeddsa_signed(keys.identity.0, state, n1) == vxeddsa_signed(secret, state, n1));
            assert(vxeddsa_signed(keys.identity.0, keys.signed_pre_key.1, n2) == vxeddsa_signed(
                secret,
                spk,
                n2,
            ));
            assert(vxeddsa_signed(keys.identity.0, keys.signed_device_key.1, n3) == vxeddsa_signed(
                secret,
                sdk,
                n3,
            ));
        }
        r
    }

    /// Takes the server's reply.
    pub fn resume(self, reply: Result<DeviceRegisterResponse, SdkError>) -> (r: RegisterStep)
        ensures
            r@ == self.next(reply),
            reply matches Ok(d) ==> r == RegisterStep::SaveIdentity(
                AwaitIdentitySave {
                    keys: self.keys,
                    ids: DeviceIds { user_id: d.user_id, device_id: d.device_id },
                },
            ),
            reply matches Err(e) ==> r == RegisterStep::Failed(e),
    {
        match reply {
            Err(e) => RegisterStep::Failed(e),
            Ok(d) => RegisterStep::SaveIdentity(
                AwaitIdentitySave {
                    keys: self.keys,
                    ids: DeviceIds { user_id: d.user_id, device_id: d.device_id },
                },
            ),
        }
    }
}

impl AwaitIdentitySave {
    /// The step after the identity key was saved.
    pub open spec fn next(self, reply: Result<(), Failure>) -> RegisterStage {
        match reply {
            Err(e) => RegisterStage::Failed(e),
            Ok(_) => RegisterStage::SavePreKey(
                self.keys@,
                SIGNED_PRE_KEY_ID,
                ids_view(self.ids),
            ),
        }
    }

    /// Takes the outcome of saving the identity key.
    pub fn resume(self, reply: Result<(), SdkError>) -> (r: RegisterStep)
        ensures
            r@ == self.next(saved_view(reply)),
            reply is Ok ==> (r matches RegisterStep::SavePreKey(s) && s.keys == self.keys && s.ids
                == self.ids && s.key_id == SIGNED_PRE_KEY_ID),
            reply matches Err(e) ==> r == RegisterStep::Failed(e),
    {
        match reply {
            Err(e) => RegisterStep::Failed(e),
            Ok(_) => RegisterStep::SavePreKey(
                AwaitPreKeySave { keys: self.keys, key_id: SIGNED_PRE_KEY_ID, ids: self.ids },
            ),
        }
    }
}

impl AwaitPreKeySave {
    /// The step after the signed pre-key was saved.
    pub open spec fn next(self, reply: Result<(), Failure>) -> RegisterStage {
        match reply {
            Err(e) => RegisterStage::Failed(e),
            Ok(_) => RegisterStage::SaveOpks(opk_entries(self.keys@.opks), ids_view(self.ids)),
        }
    }

    /// Takes the outcome of saving the signed pre-key.
    pub fn resume(self, reply: Result<(), SdkError>) -> (r: RegisterStep)
        ensures
            r@ == self.next(saved_view(reply)),
            reply is Ok ==> (r matches RegisterStep::SaveOpks(s) && s.ids == self.ids),
            reply matches Err(e) ==> r == RegisterStep::Failed(e),
    {
        match reply {
            Err(e) => RegisterStep::Failed(e),
            Ok(_) => RegisterStep::SaveOpks(
                AwaitOpkSave { opks: self.keys.opk_entries(), ids: self.ids },
            ),
        }
    }
}

impl AwaitOpkSave {
    /// The step after the one-time pre-keys were saved.
    pub open spec fn next(self, reply: Result<(), Failure>) -> RegisterStage {
        match reply {
            Err(e) => RegisterStage::Failed(e),
            Ok(_) => RegisterStage::Done(ids_view(self.ids)),
        }
    }

    /// Takes the outcome of saving the one-time pre-keys.
    pub fn resume(self, reply: Result<(), SdkError>) -> (r: RegisterStep)
        ensures
            r@ == self.next(saved_view(reply)),
            reply is Ok ==> r == RegisterStep::Done(self.ids),
            reply matches Err(e) ==> r == RegisterStep::Failed(e),
    {
        match reply {
            Err(e) => RegisterStep::Failed(e),
            Ok(_) => RegisterStep::Done(self.ids),
        }
    }
}

/// The store and the server agree on the one-time pre-keys: the store keeps the secret of the i-th
/// uploaded public key, with that public key, under the id i.
pub proof fn law_uploaded_opks_are_stored(opks: Seq<(Seq<u8>, Seq<u8>)>, i: int)
    requires
        0 <= i < opks.len() <= 0x1_0000_0000,
    ensures
        opk_entries(opks).len() == opk_publics(opks).len(),
        opk_entries(opks)[i].0 == i,
        opk_entries(opks)[i].1 == opks[i].0,
        opk_entries(opks)[i].2 == opk_publics(opks)[i],
{
}

/// Whether a key agreement accepts a public key.
pub open spec fn acceptable(key: Seq<u8>) -> bool {
    readable(key) && !refused(key)
}

/// Whether all key pairs of the set are ones that others accept.
pub open spec fn all_accepted(keys: KeySet) -> bool {
    &&& is_pair(keys.identity) && acceptable(keys.identity.1)
    &&& is_pair(keys.signed_pre_key) && acceptable(keys.signed_pre_key.1)
    &&& forall|i: int|
        0 <= i < keys.opks.len() ==> is_pair(#[trigger] keys.opks[i]) && acceptable(keys.opks[i].1)
}

/// Generated keys are ones that others accept.
pub proof fn law_generated_keys_are_accepted(keys: RegistrationKeys)
    requires
        keys.paired(),
    ensures
        all_accepted(keys@),
{
    assert forall|i: int| 0 <= i < keys@.opks.len() implies is_pair(#[trigger] keys@.opks[i])
        && acceptable(keys@.opks[i].1) by {
        assert(keys.opks@[i].paired());
    }
}

/// The keys that a device has published when a contact gets the one-time pre-key at `opk`.
pub open spec fn published(keys: KeySet, opk: Option<u32>) -> Published {
    Published {
        identity: keys.identity,
        signed_pre_key: keys.signed_pre_key,
        one_time: match opk {
            Some(i) => Some((i, keys.opks[i as int])),
            None => None,
        },
    }
}

/// What a device registers, its contacts can use: from the texts of the registration, with or
/// without one of the one-time pre-keys, a contact reads a bundle of the device's public keys, can
/// look at them, and has no fault to find, so that a session can start. This holds of every signed
/// pre-key that can be signed so that it verifies.
pub proof fn law_registered_keys_start_sessions(
    keys: KeySet,
    state: Seq<char>,
    phone: Seq<char>,
    state_signed: Result<(Seq<u8>, Seq<u8>), VXEdDSAError>,
    nonce: Seq<u8>,
    dev_key_signed: Result<(Seq<u8>, Seq<u8>), VXEdDSAError>,
    body: Registration,
    opk: Option<u32>,
    user_id: Seq<char>,
    device_id: Seq<char>,
)
    requires
        all_accepted(keys),
        attests(keys.identity.0, keys.signed_pre_key.1, nonce),
        verifiable(keys.identity.0, keys.signed_pre_key.1),
        registration(
            state,
            phone,
            keys.signed_pre_key.1,
            keys.signed_device_key.1,
            opk_publics(keys.opks),
            state_signed,
            vxeddsa_signed(keys.identity.0, keys.signed_pre_key.1, nonce),
            dev_key_signed,
        ) == Ok::<Registration, Failure>(body),
        opk matches Some(i) ==> i < keys.opks.len(),
    ensures
        ({
            let bundle = published(keys, opk).bundle(
                vxeddsa_signed(keys.identity.0, keys.signed_pre_key.1, nonce)->Ok_0.0,
            );
            &&& published(keys, opk).valid()
            &&& bundle_of(
                b64_decoded(b64(keys.identity.1)),
                b64_decoded(body.signed_pre_key),
                b64_decoded(body.pre_key_signed.0),
                match opk {
                    Some(i) => Some((i, b64_decoded(body.opks[i as int]))),
                    None => None,
                },
            ) == Ok::<Bundle, Failure>(bundle)
            &&& all_readable(bundle_keys(bundle))
            &&& can_encrypt(None, Some(Contact { user_id, device_id, bundle }))
        }),
{
    let signature = vxeddsa_signed(keys.identity.0, keys.signed_pre_key.1, nonce)->Ok_0.0;
    let bundle = published(keys, opk).bundle(signature);
    let all = bundle_keys(bundle);
    assert forall|i: int| 0 <= i < all.len() implies acceptable(#[trigger] all[i]) by {}
    law_encoded_bundle_is_read_back(bundle);
    reveal_with_fuel(all_readable, 4);
    assert(all.skip(1)[0] == all[1]);
    if opk is Some {
        assert(all.skip(1).skip(1)[0] == all[2]);
    }
}

/// The signed pre-key that a first message names, and that its recipient looks up for it, is the
/// one that registration has saved. So is the one that authenticates a request, and the one that a
/// contact reads from a bundle.
pub proof fn law_named_key_is_the_saved_key(
    identity: AwaitIdentitySave,
    packet: (Seq<u8>, Seq<u8>),
    timestamp: u64,
    intro: Intro,
    sender: (Seq<char>, Seq<char>),
    session: AwaitContactSession,
    reply: BundleResponse,
)
    ensures
        ({
            let envelope = envelope_of(packet, timestamp, Some(intro));
            let unnamed = Envelope { spk_id: None, ..envelope };
            let saved = identity.next(Ok(()))->SavePreKey_1;
            &&& identity.next(Ok(())) == RegisterStage::SavePreKey(
                identity.keys@,
                saved,
                ids_view(identity.ids),
            )
            &&& envelope.spk_id == Some(saved)
            &&& first_stage(Ok(envelope), sender) matches Stage::IdentityKey(i) ==> i.spk_id
                == saved
            &&& first_stage(Ok(unnamed), sender) matches Stage::IdentityKey(i) ==> i.spk_id
                == saved
            &&& session.next(Ok(None)) == SendStage::SignedPreKey(
                session.draft@,
                pair_view(session.id_key),
                saved,
            )
            &&& reply_bundle(reply) matches Ok(b) ==> b.signed_prekey_id == saved
        }),
{
}

/// Keys are saved only for a device that the server has accepted, and the device counts as
/// registered only when all of them were saved.
pub proof fn law_registered_means_accepted_and_saved(
    oauth: AwaitOAuth,
    begun: Result<GoogleRegisterResponse, SdkError>,
    device: AwaitDevice,
    reply: Result<DeviceRegisterResponse, SdkError>,
    identity: AwaitIdentitySave,
    pre_key: AwaitPreKeySave,
    opks: AwaitOpkSave,
    saved: Result<(), Failure>,
)
    ensures
        oauth.next(begun) is Device <==> begun is Ok,
        oauth.next(begun) is Failed <==> begun is Err,
        device.next(reply) is SaveIdentity <==> reply is Ok,
        device.next(reply) is Failed <==> reply is Err,
        identity.next(saved) is SavePreKey <==> saved is Ok,
        identity.next(saved) is Failed <==> saved is Err,
        pre_key.next(saved) is SaveOpks <==> saved is Ok,
        pre_key.next(saved) is Failed <==> saved is Err,
        opks.next(saved) is Done <==> saved is Ok,
        opks.next(saved) is Failed <==> saved is Err,
{
}

/// What is registered is what is saved. Along the chain from the keys that a registration starts with to
/// its end:
///
/// - the identity pair to be saved is the one whose public key the OAuth request sends and whose secret
///   signs the device registration,
/// - the signed pre-key pair to be saved is the one whose public key the device registration sends,
/// - the one-time pre-keys to be saved are those whose public keys the device registration sends, each
///   under its place,
/// - the device registration sends the state of the OAuth reply and the phone number that was given,
/// - the ids are those of the server's reply.
pub proof fn law_what_is_registered_is_what_is_saved(
    start: AwaitOAuth,
    oauth_body: OAuthRegisterRequest,
    oauth_reply: GoogleRegisterResponse,
    device_body: DeviceRegisterRequest,
    nonces: (Seq<u8>, Seq<u8>, Seq<u8>),
    device_reply: DeviceRegisterResponse,
    r1: RegisterStep,
    r2: RegisterStep,
    r3: RegisterStep,
    r4: RegisterStep,
    r5: RegisterStep,
)
    requires
        start.keys.opks@.len() <= 0x1_0000_0000,
        oauth_body.i_key@ == b64(start.keys@.identity.1),
        r1@ == start.next(Ok(oauth_reply)),
        r1 matches RegisterStep::Device(d) ==> {
            &&& attests(d.keys@.identity.0, encode_utf8(d.state@), nonces.0)
            &&& attests(d.keys@.identity.0, d.keys@.signed_pre_key.1, nonces.1)
            &&& attests(d.keys@.identity.0, d.keys@.signed_device_key.1, nonces.2)
            &&& registration(
                d.state@,
                d.phone@,
                d.keys@.signed_pre_key.1,
                d.keys@.signed_device_key.1,
                opk_publics(d.keys@.opks),
                vxeddsa_signed(d.keys@.identity.0, encode_utf8(d.state@), nonces.0),
                vxeddsa_signed(d.keys@.identity.0, d.keys@.signed_pre_key.1, nonces.1),
                vxeddsa_signed(d.keys@.identity.0, d.keys@.signed_device_key.1, nonces.2),
            ) == Ok::<Registration, Failure>(device_body@)
            &&& r2@ == d.next(Ok(device_reply))
        },
        r2 matches RegisterStep::SaveIdentity(s) ==> r3@ == s.next(Ok(())),
        r3 matches RegisterStep::SavePreKey(s) ==> r4@ == s.next(Ok(())),
        r4 matches RegisterStep::SaveOpks(s) ==> r5@ == s.next(Ok(())),
    ensures
        r1 is Device && r2 is SaveIdentity && r3 is SavePreKey && r4 is SaveOpks && r5 is Done,
        ({
            let identity = r2->SaveIdentity_0.keys.identity_key;
            let pre_key = r3->SavePreKey_0.keys.signed_pre_key;
            let opks = r4->SaveOpks_0.opks@;
            let ids = r5->Done_0;
            &&& key_pair_view(identity) == key_pair_view(start.keys.identity_key)
            &&& b64_decoded(oauth_body.i_key@) == Ok::<Seq<u8>, Seq<char>>(identity.public@)
            &&& checks_out(
                identity.secret@,
                encode_utf8(oauth_reply.state@),
                device_body.state_signature@,
                device_body.state_vrf@,
            )
            &&& checks_out(
                identity.secret@,
                pre_key.public@,
                device_body.pre_key_sign@,
                device_body.pre_key_vrf@,
            )
            &&& checks_out(
                identity.secret@,
                start.keys.signed_device_key.public@,
                device_body.dev_key_sign@,
                device_body.dev_key_vrf@,
            )
            &&& device_body.state@ == oauth_reply.state@
            &&& device_body.phone@ == start.phone@
            &&& key_pair_view(pre_key) == key_pair_view(start.keys.signed_pre_key)
            &&& b64_decoded(device_body.signed_pre_key@) == Ok::<Seq<u8>, Seq<char>>(
                pre_key.public@,
            )
            &&& opks.len() == start.keys.opks@.len()
            &&& opks.len() == device_body.opks@.len()
            &&& forall|i: int|
                0 <= i < opks.len() ==> (#[trigger] opks[i]).0 == i && opks[i].1@
                    == start.keys.opks@[i].secret@ && opks[i].2@ == start.keys.opks@[i].public@
                    && b64_decoded(device_body.opks@[i]@) == Ok::<Seq<u8>, Seq<char>>(opks[i].2@)
            &&& ids.user_id@ == device_reply.user_id@
            &&& ids.device_id@ == device_reply.device_id@
        }),
{
    let d = r1->Device_0;
    let keys = start.keys@;
    assert(d.keys@ == keys);
    law_registration_can_be_checked(
        d.state@,
        d.phone@,
        d.keys@.identity.0,
        d.keys@.signed_pre_key.1,
        d.keys@.signed_device_key.1,
        opk_publics(d.keys@.opks),
        nonces,
        device_body,
    );
    law_b64_is_read_back(keys.identity.1);
    let opks = r4->SaveOpks_0.opks@;
    assert(entries_view(opks) == opk_entries(keys.opks));
    assert(entries_view(opks).len() == opks.len());
    assert forall|i: int| 0 <= i < opks.len() implies (#[trigger] opks[i]).0 == i && opks[i].1@
        == start.keys.opks@[i].secret@ && opks[i].2@ == start.keys.opks@[i].public@ && b64_decoded(
        device_body.opks@[i]@,
    ) == Ok::<Seq<u8>, Seq<char>>(opks[i].2@) by {
        assert(entries_view(opks)[i] == (opks[i].0, opks[i].1@, opks[i].2@));
        assert(keys.opks[i] == key_pair_view(start.keys.opks@[i]));
        law_uploaded_opks_are_stored(keys.opks, i);
    }
}

/// A registration stops at the first thing that goes wrong, and reports it as it was reported.
pub proof fn law_registration_failures_are_reported(
    oauth: AwaitOAuth,
    device: AwaitDevice,
    identity: AwaitIdentitySave,
    pre_key: AwaitPreKeySave,
    opks: AwaitOpkSave,
    e: SdkError,
)
    ensures
        oauth.next(Err(e)) == RegisterStage::Failed(e@),
        device.next(Err(e)) == RegisterStage::Failed(e@),
        identity.next(Err(e@)) == RegisterStage::Failed(e@),
        pre_key.next(Err(e@)) == RegisterStage::Failed(e@),
        opks.next(Err(e@)) == RegisterStage::Failed(e@),
{
}

/// The keys of a registration stay the same from step to step: the identity key, the signed pre-key and
/// the signed device key are in each step what they were in the step before, and none takes the place of
/// another.
pub proof fn law_keys_stay_in_their_places(
    start: AwaitOAuth,
    device: AwaitDevice,
    save: AwaitIdentitySave,
    oauth_reply: GoogleRegisterResponse,
    device_reply: DeviceRegisterResponse,
    r1: RegisterStep,
    r2: RegisterStep,
    r3: RegisterStep,
)
    requires
        r1@ == start.next(Ok(oauth_reply)),
        r2@ == device.next(Ok(device_reply)),
        r3@ == save.next(Ok(())),
    ensures
        r1 matches RegisterStep::Device(s) && s.keys.identity_key.secret@
            == start.keys.identity_key.secret@ && s.keys.identity_key.public@
            == start.keys.identity_key.public@ && s.keys.signed_pre_key.public@
            == start.keys.signed_pre_key.public@ && s.keys.signed_device_key.public@
            == start.keys.signed_device_key.public@,
        r2 matches RegisterStep::SaveIdentity(s) && s.keys.identity_key.secret@
            == device.keys.identity_key.secret@ && s.keys.identity_key.public@
            == device.keys.identity_key.public@ && s.keys.signed_pre_key.secret@
            == device.keys.signed_pre_key.secret@ && s.keys.signed_pre_key.public@
            == device.keys.signed_pre_key.public@,
        r3 matches RegisterStep::SavePreKey(s) && s.keys.signed_pre_key.secret@
            == save.keys.signed_pre_key.secret@ && s.keys.signed_pre_key.public@
            == save.keys.signed_pre_key.public@,
{
}

}
