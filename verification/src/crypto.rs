//! Key generation, request signatures, pre-key bundles and message encryption.
use vstd::prelude::*;
use vstd::string::*;
use vstd::utf8::*;

use crate::encoding::{b64, b64_decode, b64_decoded, b64_encode, bytes_or_text, is_b64_text};
use crate::encoding::{law_b64_is_read_back, lemma_b64_shape};
use crate::encoding::{seconds_at, seconds_view, unix_seconds};
use crate::error::{message, Failure, SdkError, VXEdDSAError};
use crate::signal::{Bundle, KeyPair, OneTimePreKey, PreKeyBundle, SignedPreKey, VXEdDSAOutput};
use crate::signal::{all_readable, bundle_keys, key_state, well_encoded, KeyState};
use crate::signal::SIGNED_PRE_KEY_ID;
use crate::signal::{attests, curve_public, gen_keypair, readable, refused, signed_view};
use crate::signal::{verifiable, vxeddsa_sign, vxeddsa_signed, vxeddsa_verified, KEY_PREFIX};
use crate::text::{decimal, decimal_string};

pub use crate::session::{construct_ad, encrypt_message, ActiveSession, EncryptedPayload};

verus! {

// ---------------------------------------------------------------------------
// Registration keys
// ---------------------------------------------------------------------------

/// A bundle of generated keys ready for registration.
pub struct RegistrationKeys {
    pub identity_key: KeyPair,
    pub signed_pre_key: KeyPair,
    pub signed_device_key: KeyPair,
    pub opks: Vec<KeyPair>,
}

impl KeyPair {
    /// Whether the public key is the one that belongs to the secret key, and one that others accept.
    pub open spec fn paired(self) -> bool {
        &&& self.public@ == curve_public(self.secret@)
        &&& well_encoded(self.public@)
        &&& readable(self.public@)
        &&& !refused(self.public@)
    }
}

impl RegistrationKeys {
    /// Whether every key pair is one.
    pub open spec fn paired(self) -> bool {
        &&& self.identity_key.paired()
        &&& self.signed_pre_key.paired()
        &&& self.signed_device_key.paired()
        &&& forall|i: int| 0 <= i < self.opks@.len() ==> (#[trigger] self.opks@[i]).paired()
    }
}

/// Generates a complete set of keys for registration: an identity key, a signed pre-key, a signed
/// device key and `opk_count` one-time pre-keys.
pub fn generate_registration_keys(opk_count: u32) -> (r: RegistrationKeys)
    ensures
        r.paired(),
        r.opks@.len() == opk_count,
{
    let identity_key = gen_keypair();
    let signed_pre_key = gen_keypair();
    let signed_device_key = gen_keypair();
    let mut opks: Vec<KeyPair> = Vec::new();
    for i in 0..opk_count
        invariant
            opks@.len() == i,
            forall|j: int| 0 <= j < opks@.len() ==> (#[trigger] opks@[j]).paired(),
    {
        opks.push(gen_keypair());
    }
    RegistrationKeys { identity_key, signed_pre_key, signed_device_key, opks }
}

// ---------------------------------------------------------------------------
// Signatures
// ---------------------------------------------------------------------------

/// The texts that stand for a signing outcome.
pub open spec fn signature_texts(out: Result<(Seq<u8>, Seq<u8>), VXEdDSAError>) -> Result<
    (Seq<char>, Seq<char>),
    Failure,
> {
    match out {
        Ok(o) => Ok((b64(o.0), b64(o.1))),
        Err(e) => Err(Failure::VxEdDsa(e)),
    }
}

/// The contents of a pair of texts.
pub open spec fn text_pair(r: Result<(String, String), SdkError>) -> Result<
    (Seq<char>, Seq<char>),
    Failure,
> {
    match r {
        Ok(p) => Ok((p.0@, p.1@)),
        Err(e) => Err(e@),
    }
}

/// Whether the texts have the length and the alphabet of an encoded signature and VRF output.
pub open spec fn signature_shaped(signature: Seq<char>, vrf: Seq<char>) -> bool {
    &&& signature.len() == 128
    &&& vrf.len() == 44
    &&& is_b64_text(signature)
    &&& is_b64_text(vrf)
}

/// Writes a signature and its VRF output as base64.
pub fn encode_signature(out: &VXEdDSAOutput) -> (r: (String, String))
    ensures
        r.0@ == b64(out.signature@),
        r.1@ == b64(out.vrf@),
        signature_shaped(r.0@, r.1@),
{
    proof {
        lemma_b64_shape(out.signature@);
        lemma_b64_shape(out.vrf@);
    }
    (b64_encode(&out.signature), b64_encode(&out.vrf))
}

/// Signs `payload` and returns the signature and the VRF output as base64. The signature verifies
/// under the public key of the signing key, if any signature of `payload` does, and gives that VRF
/// output.
pub fn sign_payload(signing_private_key: &[u8; 32], payload: &[u8]) -> (r: Result<
    (String, String),
    SdkError,
>)
    ensures
        exists|nonce: Seq<u8>|
            text_pair(r) == signature_texts(
                #[trigger] vxeddsa_signed(signing_private_key@, payload@, nonce),
            ) && attests(signing_private_key@, payload@, nonce),
        r matches Ok(p) ==> signature_shaped(p.0@, p.1@),
{
    let signed = vxeddsa_sign(signing_private_key, payload);
    let ghost nonce = choose|nonce: Seq<u8>|
        signed_view(signed) == #[trigger] vxeddsa_signed(signing_private_key@, payload@, nonce);
    assert(attests(signing_private_key@, payload@, nonce));
    match signed {
        Ok(out) => Ok(encode_signature(&out)),
        Err(e) => Err(SdkError::from(e)),
    }
}

/// The user id, timestamp, signature and VRF output that authenticate a request.
#[verifier::ext_equal]
pub struct AuthTexts {
    pub user_id: Seq<char>,
    pub timestamp: Seq<char>,
    pub signature: Seq<char>,
    pub vrf: Seq<char>,
}

/// The text that is signed to authenticate `user_id` at `seconds`.
pub open spec fn auth_text(user_id: Seq<char>, seconds: u64) -> Seq<char> {
    user_id + decimal(seconds as nat)
}

/// The credentials of `user_id` at the time `now`, when the signer draws `nonce`.
pub open spec fn auth_texts(
    user_id: Seq<char>,
    key: Seq<u8>,
    now: Result<u64, Seq<char>>,
    nonce: Seq<u8>,
) -> Result<AuthTexts, Failure> {
    match now {
        Err(e) => Err(Failure::Crypto(e)),
        Ok(t) => match signature_texts(
            vxeddsa_signed(key, encode_utf8(auth_text(user_id, t)), nonce),
        ) {
            Err(e) => Err(e),
            Ok(p) => Ok(
                AuthTexts {
                    user_id,
                    timestamp: decimal(t as nat),
                    signature: p.0,
                    vrf: p.1,
                },
            ),
        },
    }
}

/// Whether the credentials of `user_id` at the time `now` hold a sound signature, if any.
pub open spec fn auth_attested(
    user_id: Seq<char>,
    key: Seq<u8>,
    now: Result<u64, Seq<char>>,
    nonce: Seq<u8>,
) -> bool {
    now matches Ok(t) ==> attests(key, encode_utf8(auth_text(user_id, t)), nonce)
}

/// The contents of a set of credentials.
pub open spec fn auth_view(r: Result<(String, String, String, String), SdkError>) -> Result<
    AuthTexts,
    Failure,
> {
    match r {
        Ok(h) => Ok(AuthTexts { user_id: h.0@, timestamp: h.1@, signature: h.2@, vrf: h.3@ }),
        Err(e) => Err(e@),
    }
}

/// Signs the user id and the timestamp `seconds`.
pub(crate) fn sign_user_at(user_id: &str, signing_key: &[u8; 32], seconds: u64) -> (r: (
    String,
    Result<(String, String), SdkError>,
))
    ensures
        r.0@ == decimal(seconds as nat),
        exists|nonce: Seq<u8>|
            text_pair(r.1) == signature_texts(
                #[trigger] vxeddsa_signed(
                    signing_key@,
                    encode_utf8(auth_text(user_id@, seconds)),
                    nonce,
                ),
            ) && attests(signing_key@, encode_utf8(auth_text(user_id@, seconds)), nonce),
        r.1 matches Ok(p) ==> signature_shaped(p.0@, p.1@),
{
    let timestamp = decimal_string(seconds);
    let text = message(user_id, timestamp.as_str());
    assert(text@ == auth_text(user_id@, seconds));
    let signed = sign_payload(signing_key, text.as_str().as_bytes());
    (timestamp, signed)
}

/// Generates the credentials for a request at the time `now`.
pub fn auth_headers_at(
    user_id: &str,
    signing_private_key: &[u8; 32],
    now: Result<u64, String>,
) -> (r: Result<(String, String, String, String), SdkError>)
    ensures
        exists|nonce: Seq<u8>|
            auth_view(r) == #[trigger] auth_texts(
                user_id@,
                signing_private_key@,
                seconds_view(now),
                nonce,
            ) && auth_attested(user_id@, signing_private_key@, seconds_view(now), nonce),
        r matches Ok(h) ==> signature_shaped(h.2@, h.3@),
{
    match now {
        Err(e) => {
            let r = Err(SdkError::Crypto(e));
            assert(auth_view(r) == auth_texts(
                user_id@,
                signing_private_key@,
                seconds_view(now),
                Seq::empty(),
            ));
            r
        },
        Ok(t) => {
            let (timestamp, signed) = sign_user_at(user_id, signing_private_key, t);
            let ghost nonce = choose|nonce: Seq<u8>|
                text_pair(signed) == signature_texts(
                    #[trigger] vxeddsa_signed(
                        signing_private_key@,
                        encode_utf8(auth_text(user_id@, t)),
                        nonce,
                    ),
                ) && attests(signing_private_key@, encode_utf8(auth_text(user_id@, t)), nonce);
            let r = match signed {
                Ok((signature, vrf)) => Ok((user_id.to_owned(), timestamp, signature, vrf)),
                Err(e) => Err(e),
            };
            assert(auth_view(r) == auth_texts(
                user_id@,
                signing_private_key@,
                seconds_view(now),
                nonce,
            ));
            r
        },
    }
}

/// Generates the credentials for stateless API requests: the user id, the current time in seconds,
/// and the signature and VRF output of both.
pub fn generate_auth_headers(user_id: &str, signing_private_key: &[u8; 32]) -> (r: Result<
    (String, String, String, String),
    SdkError,
>)
    ensures
        exists|t: std::time::SystemTime, nonce: Seq<u8>|
            auth_view(r) == #[trigger] auth_texts(user_id@, signing_private_key@, seconds_at(t), nonce)
                && auth_attested(user_id@, signing_private_key@, seconds_at(t), nonce),
        r matches Ok(h) ==> signature_shaped(h.2@, h.3@),
{
    auth_headers_at(user_id, signing_private_key, unix_seconds())
}

// ---------------------------------------------------------------------------
// Encoded keys and pre-key bundles
// ---------------------------------------------------------------------------

/// The public key that decoded bytes hold.
pub open spec fn key_of(decoded: Result<Seq<u8>, Seq<char>>) -> Result<Seq<u8>, Failure> {
    match decoded {
        Err(e) => Err(Failure::Crypto("Base64 decode error: "@ + e)),
        Ok(bytes) => if bytes.len() != 33 {
            Err(Failure::Crypto("Invalid key length: "@ + decimal(bytes.len())))
        } else if bytes[0] != KEY_PREFIX {
            Err(Failure::Crypto("Invalid public key prefix, expected 0x05"@))
        } else {
            Ok(bytes)
        },
    }
}

/// The signature that decoded bytes hold.
pub open spec fn signature_of(decoded: Result<Seq<u8>, Seq<char>>) -> Result<Seq<u8>, Failure> {
    match decoded {
        Err(e) => Err(Failure::Crypto("Base64 decode error: "@ + e)),
        Ok(bytes) => if bytes.len() != 96 {
            Err(Failure::Crypto("Invalid sig length: "@ + decimal(bytes.len())))
        } else {
            Ok(bytes)
        },
    }
}

/// The contents of a decoded array.
pub open spec fn array_view<const N: usize>(r: Result<[u8; N], SdkError>) -> Result<
    Seq<u8>,
    Failure,
> {
    match r {
        Ok(a) => Ok(a@),
        Err(e) => Err(e@),
    }
}

/// Copies `bytes` into an array of their length.
fn to_array<const N: usize>(bytes: &Vec<u8>) -> (r: [u8; N])
    requires
        bytes@.len() == N,
    ensures
        r@ == bytes@,
{
    let mut out: [u8; N] = [0u8;N];
    for i in 0..N
        invariant
            bytes@.len() == N,
            forall|j: int| 0 <= j < i ==> out@[j] == bytes@[j],
    {
        out[i] = bytes[i];
    }
    assert(out@ =~= bytes@);
    out
}

/// The public key that decoded bytes hold: 33 bytes with the key prefix in front.
pub fn public_key_from(decoded: Result<Vec<u8>, String>) -> (r: Result<[u8; 33], SdkError>)
    ensures
        array_view(r) == key_of(bytes_or_text(decoded)),
{
    match decoded {
        Err(e) => Err(SdkError::Crypto(message("Base64 decode error: ", e.as_str()))),
        Ok(bytes) => {
            if bytes.len() != 33 {
                let length = decimal_string(bytes.len() as u64);
                Err(SdkError::Crypto(message("Invalid key length: ", length.as_str())))
            } else if bytes[0] != KEY_PREFIX {
                Err(SdkError::Crypto("Invalid public key prefix, expected 0x05".to_owned()))
            } else {
                Ok(to_array::<33>(&bytes))
            }
        },
    }
}

/// The signature that decoded bytes hold: 96 bytes.
pub fn signature_from(decoded: Result<Vec<u8>, String>) -> (r: Result<[u8; 96], SdkError>)
    ensures
        array_view(r) == signature_of(bytes_or_text(decoded)),
{
    match decoded {
        Err(e) => Err(SdkError::Crypto(message("Base64 decode error: ", e.as_str()))),
        Ok(bytes) => {
            if bytes.len() != 96 {
                let length = decimal_string(bytes.len() as u64);
                Err(SdkError::Crypto(message("Invalid sig length: ", length.as_str())))
            } else {
                Ok(to_array::<96>(&bytes))
            }
        },
    }
}

/// Decodes a base64 public key.
pub fn decode_b64_33(b64: &str) -> (r: Result<[u8; 33], SdkError>)
    ensures
        array_view(r) == key_of(b64_decoded(b64@)),
{
    public_key_from(b64_decode(b64))
}

/// Decodes a base64 signature.
pub fn decode_b64_96(b64: &str) -> (r: Result<[u8; 96], SdkError>)
    ensures
        array_view(r) == signature_of(b64_decoded(b64@)),
{
    signature_from(b64_decode(b64))
}

/// The bundle that decoded keys make up. The server does not send the id of the signed pre-key: it
/// is [`SIGNED_PRE_KEY_ID`].
pub open spec fn bundle_of(
    identity_key: Result<Seq<u8>, Seq<char>>,
    signed_pre_key: Result<Seq<u8>, Seq<char>>,
    signature: Result<Seq<u8>, Seq<char>>,
    opk: Option<(u32, Result<Seq<u8>, Seq<char>>)>,
) -> Result<Bundle, Failure> {
    match (key_of(identity_key), key_of(signed_pre_key), signature_of(signature)) {
        (Err(e), _, _) => Err(e),
        (_, Err(e), _) => Err(e),
        (_, _, Err(e)) => Err(e),
        (Ok(ik), Ok(spk), Ok(sig)) => match opk {
            None => Ok(
                Bundle {
                    identity_key: ik,
                    signed_prekey_id: SIGNED_PRE_KEY_ID,
                    signed_prekey: spk,
                    signature: sig,
                    one_time_prekey: None,
                },
            ),
            Some((id, key)) => match key_of(key) {
                Err(e) => Err(e),
                Ok(k) => Ok(
                    Bundle {
                        identity_key: ik,
                        signed_prekey_id: SIGNED_PRE_KEY_ID,
                        signed_prekey: spk,
                        signature: sig,
                        one_time_prekey: Some((id, k)),
                    },
                ),
            },
        },
    }
}

/// The contents of a parsed bundle.
pub open spec fn bundle_view(r: Result<PreKeyBundle, SdkError>) -> Result<Bundle, Failure> {
    match r {
        Ok(b) => Ok(b@),
        Err(e) => Err(e@),
    }
}

/// The contents of a one-time pre-key whose text was decoded.
pub open spec fn decoded_opk(opk: Option<(u32, Result<Vec<u8>, String>)>) -> Option<
    (u32, Result<Seq<u8>, Seq<char>>),
> {
    match opk {
        Some((id, key)) => Some((id, bytes_or_text(key))),
        None => None,
    }
}

/// Builds a bundle from decoded keys.
pub fn prekey_bundle_from(
    identity_key: Result<Vec<u8>, String>,
    signed_pre_key: Result<Vec<u8>, String>,
    signature: Result<Vec<u8>, String>,
    opk: Option<(u32, Result<Vec<u8>, String>)>,
) -> (r: Result<PreKeyBundle, SdkError>)
    ensures
        bundle_view(r) == bundle_of(
            bytes_or_text(identity_key),
            bytes_or_text(signed_pre_key),
            bytes_or_text(signature),
            decoded_opk(opk),
        ),
{
    let identity_key = match public_key_from(identity_key) {
        Ok(k) => k,
        Err(e) => return Err(e),
    };
    let public_key = match public_key_from(signed_pre_key) {
        Ok(k) => k,
        Err(e) => return Err(e),
    };
    let signature = match signature_from(signature) {
        Ok(s) => s,
        Err(e) => return Err(e),
    };
    let one_time_prekey = match opk {
        Some((id, key)) => match public_key_from(key) {
            Ok(public_key) => Some(OneTimePreKey { id, public_key }),
            Err(e) => return Err(e),
        },
        None => None,
    };
    Ok(
        PreKeyBundle {
            identity_key,
            signed_prekey: SignedPreKey { id: SIGNED_PRE_KEY_ID, public_key, signature },
            one_time_prekey,
        },
    )
}

/// The one-time pre-key of a reply, with its text decoded.
pub open spec fn opk_of_text(opk: Option<(u32, &str)>) -> Option<
    (u32, Result<Seq<u8>, Seq<char>>),
> {
    match opk {
        Some((id, key)) => Some((id, b64_decoded(key@))),
        None => None,
    }
}

/// Builds a bundle from the base64 texts that the server sends.
pub fn parse_prekey_bundle(
    identity_key_b64: &str,
    signed_pre_key_b64: &str,
    signature_b64: &str,
    opk_opt: Option<(u32, &str)>,
) -> (r: Result<PreKeyBundle, SdkError>)
    ensures
        bundle_view(r) == bundle_of(
            b64_decoded(identity_key_b64@),
            b64_decoded(signed_pre_key_b64@),
            b64_decoded(signature_b64@),
            opk_of_text(opk_opt),
        ),
{
    let opk = match opk_opt {
        Some((id, key)) => Some((id, b64_decode(key))),
        None => None,
    };
    prekey_bundle_from(
        b64_decode(identity_key_b64),
        b64_decode(signed_pre_key_b64),
        b64_decode(signature_b64),
        opk,
    )
}

impl PreKeyBundle {
    /// Whether a key agreement can look at the keys of this bundle: up to the first key that it
    /// refuses, all lie on the curve.
    pub fn is_readable(&self) -> (r: bool)
        ensures
            r == all_readable(bundle_keys(self@)),
    {
        proof {
            let keys = bundle_keys(self@);
            reveal_with_fuel(all_readable, 4);
            assert(keys.skip(1)[0] == keys[1]);
            if self@.one_time_prekey is Some {
                assert(keys.skip(1).skip(1)[0] == keys[2]);
            }
        }
        match key_state(&self.identity_key) {
            KeyState::Unreadable => return false,
            KeyState::Refused => return true,
            KeyState::Good => {},
        }
        match key_state(&self.signed_prekey.public_key) {
            KeyState::Unreadable => return false,
            KeyState::Refused => return true,
            KeyState::Good => {},
        }
        match &self.one_time_prekey {
            Some(opk) => match key_state(&opk.public_key) {
                KeyState::Unreadable => false,
                KeyState::Refused => true,
                KeyState::Good => true,
            },
            None => true,
        }
    }
}

// ---------------------------------------------------------------------------
// Laws
// ---------------------------------------------------------------------------

/// What authenticates a request can be checked by anyone who has the public key: the signature text
/// holds a signature that verifies for the user id and the timestamp, and verifying gives the VRF
/// output that is sent along. This holds of every text that can be signed so that it verifies.
pub proof fn law_credentials_verify(
    user_id: Seq<char>,
    key: Seq<u8>,
    now: Result<u64, Seq<char>>,
    nonce: Seq<u8>,
    credentials: AuthTexts,
)
    requires
        auth_attested(user_id, key, now, nonce),
        auth_texts(user_id, key, now, nonce) == Ok::<AuthTexts, Failure>(credentials),
        verifiable(key, encode_utf8(credentials.user_id + credentials.timestamp)),
    ensures
        b64_decoded(credentials.signature) is Ok,
        b64_decoded(credentials.vrf) is Ok,
        vxeddsa_verified(
            curve_public(key),
            encode_utf8(credentials.user_id + credentials.timestamp),
            b64_decoded(credentials.signature)->Ok_0,
        ) == Some(b64_decoded(credentials.vrf)->Ok_0),
{
    let text = encode_utf8(auth_text(user_id, now->Ok_0));
    let signed = vxeddsa_signed(key, text, nonce)->Ok_0;
    law_b64_is_read_back(signed.0);
    law_b64_is_read_back(signed.1);
}

/// The VRF output is determined by the key and the payload: signing the same payload again gives
/// another signature, but not another VRF output.
pub proof fn law_vrf_is_determined(
    key: Seq<u8>,
    payload: Seq<u8>,
    first: Seq<u8>,
    second: Seq<u8>,
    one: (Seq<char>, Seq<char>),
    other: (Seq<char>, Seq<char>),
)
    requires
        attests(key, payload, first),
        signature_texts(vxeddsa_signed(key, payload, first)) == Ok::<_, Failure>(one),
        signature_texts(vxeddsa_signed(key, payload, second)) == Ok::<_, Failure>(other),
    ensures
        one.1 == other.1,
{
}

/// A public key is read back from its base64 text.
pub proof fn law_encoded_key_is_read_back(key: Seq<u8>)
    requires
        well_encoded(key),
    ensures
        key_of(b64_decoded(b64(key))) == Ok::<Seq<u8>, Failure>(key),
{
    law_b64_is_read_back(key);
}

/// A bundle is read back from the base64 texts of its parts, if its signed pre-key has the id of a
/// device's.
pub proof fn law_encoded_bundle_is_read_back(bundle: Bundle)
    requires
        bundle.signed_prekey_id == SIGNED_PRE_KEY_ID,
        well_encoded(bundle.identity_key),
        well_encoded(bundle.signed_prekey),
        bundle.signature.len() == 96,
        bundle.one_time_prekey matches Some(k) ==> well_encoded(k.1),
    ensures
        bundle_of(
            b64_decoded(b64(bundle.identity_key)),
            b64_decoded(b64(bundle.signed_prekey)),
            b64_decoded(b64(bundle.signature)),
            match bundle.one_time_prekey {
                Some(k) => Some((k.0, b64_decoded(b64(k.1)))),
                None => None,
            },
        ) == Ok::<Bundle, Failure>(bundle),
{
    law_b64_is_read_back(bundle.identity_key);
    law_b64_is_read_back(bundle.signed_prekey);
    law_b64_is_read_back(bundle.signature);
    if let Some(k) = bundle.one_time_prekey {
        law_b64_is_read_back(k.1);
    }
}

/// There are credentials whenever the clock can be read and signing gives something: they are those of
/// the user, at the time of the clock. Otherwise the error is that of the clock or that of the signer.
pub proof fn law_credentials_come_of_clock_and_signer(
    user_id: Seq<char>,
    key: Seq<u8>,
    now: Result<u64, Seq<char>>,
    nonce: Seq<u8>,
)
    ensures
        match now {
            Err(e) => auth_texts(user_id, key, now, nonce) == Err::<AuthTexts, Failure>(
                Failure::Crypto(e),
            ),
            Ok(t) => match vxeddsa_signed(
                key,
                encode_utf8(user_id + decimal(t as nat)),
                nonce,
            ) {
                Err(e) => auth_texts(user_id, key, now, nonce) == Err::<AuthTexts, Failure>(
                    Failure::VxEdDsa(e),
                ),
                Ok(signed) => auth_texts(user_id, key, now, nonce) matches Ok(a) && {
                    &&& a.user_id == user_id
                    &&& a.timestamp == decimal(t as nat)
                    &&& b64_decoded(a.signature) == Ok::<Seq<u8>, Seq<char>>(signed.0)
                    &&& b64_decoded(a.vrf) == Ok::<Seq<u8>, Seq<char>>(signed.1)
                },
            },
        },
{
    if let Ok(t) = now {
        if let Ok(signed) = vxeddsa_signed(key, encode_utf8(user_id + decimal(t as nat)), nonce) {
            law_b64_is_read_back(signed.0);
            law_b64_is_read_back(signed.1);
        }
    }
}

/// Credentials as they are returned can be checked: the first is the user id, and with the second
/// behind it, it is what the third is a signature of; verifying gives what the fourth holds.
pub proof fn law_credentials_stand_in_order(
    user_id: Seq<char>,
    key: Seq<u8>,
    now: Result<u64, Seq<char>>,
    nonce: Seq<u8>,
    r: (String, String, String, String),
)
    requires
        auth_attested(user_id, key, now, nonce),
        auth_view(Ok(r)) == auth_texts(user_id, key, now, nonce),
        verifiable(key, encode_utf8(r.0@ + r.1@)),
    ensures
        r.0@ == user_id,
        now matches Ok(t) && r.1@ == decimal(t as nat),
        b64_decoded(r.2@) is Ok && b64_decoded(r.3@) is Ok,
        vxeddsa_verified(
            curve_public(key),
            encode_utf8(r.0@ + r.1@),
            b64_decoded(r.2@)->Ok_0,
        ) == Some(b64_decoded(r.3@)->Ok_0),
{
    law_credentials_come_of_clock_and_signer(user_id, key, now, nonce);
}

/// A signature as it is returned can be checked: the first text holds a signature of the payload that
/// verifies, and verifying gives what the second holds. This holds of every payload that can be signed
/// so that it verifies.
pub proof fn law_signature_verifies(
    key: Seq<u8>,
    payload: Seq<u8>,
    nonce: Seq<u8>,
    r: (String, String),
)
    requires
        attests(key, payload, nonce),
        text_pair(Ok(r)) == signature_texts(vxeddsa_signed(key, payload, nonce)),
        verifiable(key, payload),
    ensures
        b64_decoded(r.0@) is Ok && b64_decoded(r.1@) is Ok,
        vxeddsa_verified(curve_public(key), payload, b64_decoded(r.0@)->Ok_0) == Some(
            b64_decoded(r.1@)->Ok_0,
        ),
{
    let signed = vxeddsa_signed(key, payload, nonce)->Ok_0;
    law_b64_is_read_back(signed.0);
    law_b64_is_read_back(signed.1);
}

/// A text is accepted as a public key exactly when it holds 33 bytes of which the first is 5, and the
/// key is those bytes.
pub proof fn law_accepted_keys(decoded: Result<Seq<u8>, Seq<char>>, r: Result<[u8; 33], SdkError>)
    requires
        array_view(r) == key_of(decoded),
    ensures
        match decoded {
            Ok(bytes) => r is Ok <==> bytes.len() == 33 && bytes[0] == 5,
            Err(e) => r matches Err(f) && f@ == Failure::Crypto("Base64 decode error: "@ + e),
        },
        r matches Ok(k) ==> decoded == Ok::<Seq<u8>, Seq<char>>(k@),
        r is Err ==> r->Err_0@ is Crypto,
{
}

/// A text is accepted as a signature exactly when it holds 96 bytes, and the signature is those bytes.
pub proof fn law_accepted_signatures(
    decoded: Result<Seq<u8>, Seq<char>>,
    r: Result<[u8; 96], SdkError>,
)
    requires
        array_view(r) == signature_of(decoded),
    ensures
        match decoded {
            Ok(bytes) => r is Ok <==> bytes.len() == 96,
            Err(e) => r matches Err(f) && f@ == Failure::Crypto("Base64 decode error: "@ + e),
        },
        r matches Ok(k) ==> decoded == Ok::<Seq<u8>, Seq<char>>(k@),
        r is Err ==> r->Err_0@ is Crypto,
{
}

/// A bundle holds the keys that were sent, each in its place: the identity key, the signed pre-key with
/// its signature, and the one-time pre-key with its id if there is one. It is accepted exactly when
/// all of them are.
pub proof fn law_bundle_holds_what_was_sent(
    identity_key: Result<Seq<u8>, Seq<char>>,
    signed_pre_key: Result<Seq<u8>, Seq<char>>,
    signature: Result<Seq<u8>, Seq<char>>,
    opk: Option<(u32, Result<Seq<u8>, Seq<char>>)>,
    r: Result<PreKeyBundle, SdkError>,
)
    requires
        bundle_view(r) == bundle_of(identity_key, signed_pre_key, signature, opk),
    ensures
        r is Ok <==> key_of(identity_key) is Ok && key_of(signed_pre_key) is Ok && signature_of(
            signature,
        ) is Ok && (opk matches Some(k) ==> key_of(k.1) is Ok),
        r matches Ok(b) ==> {
            &&& identity_key == Ok::<Seq<u8>, Seq<char>>(b.identity_key@)
            &&& signed_pre_key == Ok::<Seq<u8>, Seq<char>>(b.signed_prekey.public_key@)
            &&& signature == Ok::<Seq<u8>, Seq<char>>(b.signed_prekey.signature@)
            &&& match (opk, b.one_time_prekey) {
                (Some(sent), Some(k)) => k.id == sent.0 && sent.1 == Ok::<Seq<u8>, Seq<char>>(
                    k.public_key@,
                ),
                (None, None) => true,
                _ => false,
            }
        },
{
}

}
