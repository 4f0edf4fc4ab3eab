//! Requests to the REST API and their replies.
use vstd::prelude::*;
use vstd::string::*;
use vstd::utf8::*;

use crate::crypto::{auth_attested, auth_headers_at, auth_texts, sign_payload};
use crate::crypto::{auth_view, law_credentials_come_of_clock_and_signer};
use crate::crypto::{signature_texts, text_pair, AuthTexts};
use crate::encoding::{b64, b64_decoded, b64_encode, check_header_value, law_b64_is_read_back};
use crate::encoding::{is_header_value, seconds_at, seconds_view, unix_seconds};
use crate::encoding::{url_encode, url_encoded};
use crate::error::{message, Failure, SdkError, VXEdDSAError};
use crate::signal::{attests, curve_public, verifiable, vxeddsa_signed, vxeddsa_verified};
use crate::text::{decimal, lemma_decimal_digits, texts};

verus! {

// ---------------------------------------------------------------------------
// Replies
// ---------------------------------------------------------------------------

/// The reply to a device registration.
#[derive(Debug)]
pub struct DeviceRegisterResponse {
    pub status: String,
    pub user_id: String,
    pub device_id: String,
}

/// A contact's pre-key bundle as the server sends it.
#[derive(Debug)]
pub struct BundleResponse {
    pub user_id: String,
    pub device_id: String,
    pub identity_key: String,
    pub signed_pre_key: String,
    pub signature: String,
    pub opk: Option<OpkResponse>,
    pub phone: Option<String>,
    pub picture: Option<String>,
}

/// A one-time pre-key as the server sends it.
#[derive(Debug)]
pub struct OpkResponse {
    pub id: u32,
    pub key: String,
}

/// A contact's identity and profile.
#[derive(Debug, Clone)]
pub struct SyncBundleResponse {
    pub user_id: String,
    pub identity_key: String,
    pub picture: Option<String>,
    pub display_name: Option<String>,
}

/// Real-time events that the SDK emits.
#[derive(Debug, Clone)]
pub enum Event {
    Connected,
    Disconnected,
    MessageReceived { sender: String, plaintext: Vec<u8> },
}

/// A call of the REST API.
#[derive(Debug, Clone, Copy, PartialEq, Eq, Structural)]
pub enum ApiCall {
    RegisterGoogleIdToken,
    RegisterGooglePkce,
    RegisterDevice,
    GetBundle,
    GetSyncBundle,
}

/// What the error of a call that the server turns down begins with.
pub open spec fn refusal_prefix(call: ApiCall) -> Seq<char> {
    match call {
        ApiCall::RegisterGoogleIdToken => "Google ID token registration failed: "@,
        ApiCall::RegisterGooglePkce => "Google PKCE registration failed: "@,
        ApiCall::RegisterDevice => "Device registration failed: "@,
        ApiCall::GetBundle => "Failed to fetch bundle: "@,
        ApiCall::GetSyncBundle => "Failed to fetch sync bundle: "@,
    }
}

/// The error of a call that the server turned down with the text `body`.
pub fn api_refusal(call: ApiCall, body: &str) -> (r: SdkError)
    ensures
        r@ == Failure::Api(refusal_prefix(call) + body@),
{
    let prefix = match call {
        ApiCall::RegisterGoogleIdToken => "Google ID token registration failed: ",
        ApiCall::RegisterGooglePkce => "Google PKCE registration failed: ",
        ApiCall::RegisterDevice => "Device registration failed: ",
        ApiCall::GetBundle => "Failed to fetch bundle: ",
        ApiCall::GetSyncBundle => "Failed to fetch sync bundle: ",
    };
    SdkError::Api(message(prefix, body))
}

// ---------------------------------------------------------------------------
// Authenticated requests
// ---------------------------------------------------------------------------

/// The REST API of a server.
#[derive(Clone, Debug)]
pub struct ApiClient {
    pub base_url: String,
}

/// A request without a body.
pub struct ApiRequest {
    pub url: String,
    /// Header names and values, in order.
    pub headers: Vec<(String, String)>,
}

/// The names and values of headers.
pub open spec fn header_texts(headers: Seq<(String, String)>) -> Seq<(Seq<char>, Seq<char>)> {
    headers.map_values(|h: (String, String)| (h.0@, h.1@))
}

/// The headers that carry credentials.
pub open spec fn auth_header_list(a: AuthTexts) -> Seq<(Seq<char>, Seq<char>)> {
    seq![
        ("X-User-Id"@, a.user_id),
        ("X-Timestamp"@, a.timestamp),
        ("X-Signature"@, a.signature),
        ("X-Vrf"@, a.vrf),
    ]
}

/// The headers for credentials, or the error if there are none or the user id cannot stand in a
/// header.
pub open spec fn auth_header_result(a: Result<AuthTexts, Failure>) -> Result<
    Seq<(Seq<char>, Seq<char>)>,
    Failure,
> {
    match a {
        Err(e) => Err(e),
        Ok(a) => if is_header_value(a.user_id) {
            Ok(auth_header_list(a))
        } else {
            Err(Failure::Api("failed to parse header value"@))
        },
    }
}

/// The contents of a list of headers.
pub open spec fn headers_view(r: Result<Vec<(String, String)>, SdkError>) -> Result<
    Seq<(Seq<char>, Seq<char>)>,
    Failure,
> {
    match r {
        Ok(h) => Ok(header_texts(h@)),
        Err(e) => Err(e@),
    }
}

/// Puts credentials into headers. The timestamp, the signature and the VRF output can always stand
/// in a header.
fn headers_for(user_id: String, timestamp: String, signature: String, vrf: String) -> (r: Result<
    Vec<(String, String)>,
    SdkError,
>)
    requires
        is_header_value(timestamp@),
        is_header_value(signature@),
        is_header_value(vrf@),
    ensures
        headers_view(r) == auth_header_result(
            Ok(
                AuthTexts {
                    user_id: user_id@,
                    timestamp: timestamp@,
                    signature: signature@,
                    vrf: vrf@,
                },
            ),
        ),
{
    match check_header_value(user_id.as_str()) {
        Ok(_) => {},
        Err(e) => return Err(SdkError::Api(e)),
    }
    match check_header_value(timestamp.as_str()) {
        Ok(_) => {},
        Err(e) => return Err(SdkError::Api(e)),
    }
    match check_header_value(signature.as_str()) {
        Ok(_) => {},
        Err(e) => return Err(SdkError::Api(e)),
    }
    match check_header_value(vrf.as_str()) {
        Ok(_) => {},
        Err(e) => return Err(SdkError::Api(e)),
    }
    let ghost a = AuthTexts {
        user_id: user_id@,
        timestamp: timestamp@,
        signature: signature@,
        vrf: vrf@,
    };
    let mut headers: Vec<(String, String)> = Vec::new();
    headers.push(("X-User-Id".to_owned(), user_id));
    headers.push(("X-Timestamp".to_owned(), timestamp));
    headers.push(("X-Signature".to_owned(), signature));
    headers.push(("X-Vrf".to_owned(), vrf));
    assert(header_texts(headers@) =~= auth_header_list(a));
    Ok(headers)
}

impl ApiClient {
    /// The API under `base_url`.
    pub fn new(base_url: String) -> (r: Self)
        ensures
            r.base_url == base_url,
    {
        ApiClient { base_url }
    }

    /// The headers that authenticate a request at the time `now`.
    pub fn auth_headers_at(
        &self,
        user_id: &str,
        signing_private_key: &[u8; 32],
        now: Result<u64, String>,
    ) -> (r: Result<Vec<(String, String)>, SdkError>)
        ensures
            exists|nonce: Seq<u8>|
                headers_view(r) == auth_header_result(
                    #[trigger] auth_texts(
                        user_id@,
                        signing_private_key@,
                        seconds_view(now),
                        nonce,
                    ),
                ) && auth_attested(user_id@, signing_private_key@, seconds_view(now), nonce),
    {
        let ghost clock = seconds_view(now);
        let credentials = auth_headers_at(user_id, signing_private_key, now);
        let ghost nonce = choose|nonce: Seq<u8>|
            auth_view(credentials) == #[trigger] auth_texts(
                user_id@,
                signing_private_key@,
                clock,
                nonce,
            ) && auth_attested(user_id@, signing_private_key@, clock, nonce);
        let ghost texts = auth_texts(user_id@, signing_private_key@, clock, nonce);
        match credentials {
            Ok((uid, timestamp, signature, vrf)) => {
                proof {
                    lemma_decimal_digits(clock->Ok_0 as nat);
                    assert(is_header_value(timestamp@));
                    assert(is_header_value(signature@));
                    assert(is_header_value(vrf@));
                }
                headers_for(uid, timestamp, signature, vrf)
            },
            Err(e) => {
                let r = Err(e);
                assert(headers_view(r) == auth_header_result(texts));
                r
            },
        }
    }

    /// The headers that authenticate a request: user id, current time in seconds, and signature
    /// and VRF output of both.
    pub fn auth_headers(&self, user_id: &str, signing_private_key: &[u8; 32]) -> (r: Result<
        Vec<(String, String)>,
        SdkError,
    >)
        ensures
            exists|t: std::time::SystemTime, nonce: Seq<u8>|
                headers_view(r) == auth_header_result(
                    #[trigger] auth_texts(user_id@, signing_private_key@, seconds_at(t), nonce),
                ) && auth_attested(user_id@, signing_private_key@, seconds_at(t), nonce),
    {
        self.auth_headers_at(user_id, signing_private_key, unix_seconds())
    }

    /// The URL of a path under the base URL.
    fn url(&self, path: &str) -> (r: String)
        ensures
            r@ == self.base_url@ + path@,
    {
        let mut url = self.base_url.clone();
        url.append(path);
        url
    }

    /// The request for a contact's pre-key bundle (`POST /bundle/{identifier}`), at the time `now`.
    /// The server gives up one one-time pre-key for it.
    pub fn bundle_request_at(
        &self,
        user_id: &str,
        signing_private_key: &[u8; 32],
        identifier: &str,
        now: Result<u64, String>,
    ) -> (r: Result<ApiRequest, SdkError>)
        ensures
            exists|nonce: Seq<u8>|
                request_view(r) == request_to(
                    self.base_url@ + "/bundle/"@ + url_encoded(identifier@),
                    #[trigger] auth_texts(
                        user_id@,
                        signing_private_key@,
                        seconds_view(now),
                        nonce,
                    ),
                ) && auth_attested(user_id@, signing_private_key@, seconds_view(now), nonce),
    {
        let mut url = self.url("/bundle/");
        url.append(url_encode(identifier).as_str());
        match self.auth_headers_at(user_id, signing_private_key, now) {
            Ok(headers) => Ok(ApiRequest { url, headers }),
            Err(e) => Err(e),
        }
    }

    /// The request for a contact's pre-key bundle, at the current time.
    pub fn bundle_request(
        &self,
        user_id: &str,
        signing_private_key: &[u8; 32],
        identifier: &str,
    ) -> (r: Result<ApiRequest, SdkError>)
        ensures
            exists|t: std::time::SystemTime, nonce: Seq<u8>|
                request_view(r) == request_to(
                    self.base_url@ + "/bundle/"@ + url_encoded(identifier@),
                    #[trigger] auth_texts(user_id@, signing_private_key@, seconds_at(t), nonce),
                ) && auth_attested(user_id@, signing_private_key@, seconds_at(t), nonce),
    {
        self.bundle_request_at(user_id, signing_private_key, identifier, unix_seconds())
    }

    /// The request for a contact's identity and profile (`GET /bundle/sync/{userId}`), at the time
    /// `now`. It consumes no one-time pre-key.
    pub fn sync_bundle_request_at(
        &self,
        user_id: &str,
        signing_private_key: &[u8; 32],
        target_user_id: &str,
        now: Result<u64, String>,
    ) -> (r: Result<ApiRequest, SdkError>)
        ensures
            exists|nonce: Seq<u8>|
                request_view(r) == request_to(
                    self.base_url@ + "/bundle/sync/"@ + url_encoded(target_user_id@),
                    #[trigger] auth_texts(
                        user_id@,
                        signing_private_key@,
                        seconds_view(now),
                        nonce,
                    ),
                ) && auth_attested(user_id@, signing_private_key@, seconds_view(now), nonce),
    {
        let mut url = self.url("/bundle/sync/");
        url.append(url_encode(target_user_id).as_str());
        match self.auth_headers_at(user_id, signing_private_key, now) {
            Ok(headers) => Ok(ApiRequest { url, headers }),
            Err(e) => Err(e),
        }
    }

    /// The request for a contact's identity and profile, at the current time.
    pub fn sync_bundle_request(
        &self,
        user_id: &str,
        signing_private_key: &[u8; 32],
        target_user_id: &str,
    ) -> (r: Result<ApiRequest, SdkError>)
        ensures
            exists|t: std::time::SystemTime, nonce: Seq<u8>|
                request_view(r) == request_to(
                    self.base_url@ + "/bundle/sync/"@ + url_encoded(target_user_id@),
                    #[trigger] auth_texts(user_id@, signing_private_key@, seconds_at(t), nonce),
                ) && auth_attested(user_id@, signing_private_key@, seconds_at(t), nonce),
    {
        self.sync_bundle_request_at(user_id, signing_private_key, target_user_id, unix_seconds())
    }

    /// The URL and body of a device registration (`POST /register/device`). The identity key signs
    /// the state of the registration, the signed pre-key and the signed device key.
    pub fn device_registration(
        &self,
        state: &str,
        phone: &str,
        identity_private: &[u8; 32],
        signed_pre_key_pub: &[u8; 33],
        signed_device_key_pub: &[u8; 33],
        opks_pub: &[[u8; 33]],
    ) -> (r: Result<(String, DeviceRegisterRequest), SdkError>)
        ensures
            r matches Ok(p) ==> p.0@ == self.base_url@ + "/register/device"@,
            exists|n1: Seq<u8>, n2: Seq<u8>, n3: Seq<u8>|
                registration_view(r) == registration(
                    state@,
                    phone@,
                    signed_pre_key_pub@,
                    signed_device_key_pub@,
                    key_bytes(opks_pub@),
                    #[trigger] vxeddsa_signed(identity_private@, encode_utf8(state@), n1),
                    #[trigger] vxeddsa_signed(identity_private@, signed_pre_key_pub@, n2),
                    #[trigger] vxeddsa_signed(identity_private@, signed_device_key_pub@, n3),
                ) && attests(identity_private@, encode_utf8(state@), n1) && attests(
                    identity_private@,
                    signed_pre_key_pub@,
                    n2,
                ) && attests(identity_private@, signed_device_key_pub@, n3),
    {
        let url = self.url("/register/device");
        let s1 = sign_payload(identity_private, state.as_bytes());
        let s2 = sign_payload(identity_private, signed_pre_key_pub);
        let s3 = sign_payload(identity_private, signed_device_key_pub);
        let ghost n1 = choose|n: Seq<u8>|
            text_pair(s1) == signature_texts(
                #[trigger] vxeddsa_signed(identity_private@, encode_utf8(state@), n),
            ) && attests(identity_private@, encode_utf8(state@), n);
        let ghost n2 = choose|n: Seq<u8>|
            text_pair(s2) == signature_texts(
                #[trigger] vxeddsa_signed(identity_private@, signed_pre_key_pub@, n),
            ) && attests(identity_private@, signed_pre_key_pub@, n);
        let ghost n3 = choose|n: Seq<u8>|
            text_pair(s3) == signature_texts(
                #[trigger] vxeddsa_signed(identity_private@, signed_device_key_pub@, n),
            ) && attests(identity_private@, signed_device_key_pub@, n);
        let ghost o1 = vxeddsa_signed(identity_private@, encode_utf8(state@), n1);
        let ghost o2 = vxeddsa_signed(identity_private@, signed_pre_key_pub@, n2);
        let ghost o3 = vxeddsa_signed(identity_private@, signed_device_key_pub@, n3);
        let r = match (s1, s2, s3) {
            (Err(e), _, _) => Err(e),
            (_, Err(e), _) => Err(e),
            (_, _, Err(e)) => Err(e),
            (Ok(state_signed), Ok(pre_key_signed), Ok(dev_key_signed)) => {
                let body = DeviceRegisterRequest::new(
                    state,
                    phone,
                    signed_pre_key_pub,
                    signed_device_key_pub,
                    opks_pub,
                    state_signed,
                    pre_key_signed,
                    dev_key_signed,
                );
                Ok((url, body))
            },
        };
        assert(registration_view(r) == registration(
            state@,
            phone@,
            signed_pre_key_pub@,
            signed_device_key_pub@,
            key_bytes(opks_pub@),
            o1,
            o2,
            o3,
        ));
        r
    }
}

/// The URL and headers of a request.
#[verifier::ext_equal]
pub struct Request {
    pub url: Seq<char>,
    pub headers: Seq<(Seq<char>, Seq<char>)>,
}

/// The contents of a request.
pub open spec fn request_view(r: Result<ApiRequest, SdkError>) -> Result<Request, Failure> {
    match r {
        Ok(q) => Ok(Request { url: q.url@, headers: header_texts(q.headers@) }),
        Err(e) => Err(e@),
    }
}

/// The request to `url` with the given credentials.
pub open spec fn request_to(url: Seq<char>, credentials: Result<AuthTexts, Failure>) -> Result<
    Request,
    Failure,
> {
    match auth_header_result(credentials) {
        Ok(headers) => Ok(Request { url, headers }),
        Err(e) => Err(e),
    }
}

/// The value under a header's name, the first one if there are several.
pub open spec fn value_under(headers: Seq<(String, String)>, name: Seq<char>) -> Option<Seq<char>>
    decreases headers.len(),
{
    if headers.len() == 0 {
        None
    } else if headers[0].0@ == name {
        Some(headers[0].1@)
    } else {
        value_under(headers.skip(1), name)
    }
}

/// Headers as they are sent can be checked with the public key alone: the value under `X-Signature`
/// holds a signature that verifies for the value under `X-User-Id` with the value under `X-Timestamp`
/// behind it, and verifying gives what the value under `X-Vrf` holds. The user id is the sender's and
/// the timestamp is the time of the clock in decimal. This holds of every text that can be signed so
/// that it verifies.
pub proof fn law_headers_can_be_checked(
    user_id: Seq<char>,
    key: Seq<u8>,
    now: Result<u64, Seq<char>>,
    nonce: Seq<u8>,
    headers: Vec<(String, String)>,
)
    requires
        auth_attested(user_id, key, now, nonce),
        headers_view(Ok(headers)) == auth_header_result(auth_texts(user_id, key, now, nonce)),
    ensures
        ({
            let user = value_under(headers@, "X-User-Id"@);
            let timestamp = value_under(headers@, "X-Timestamp"@);
            let signature = value_under(headers@, "X-Signature"@);
            let vrf = value_under(headers@, "X-Vrf"@);
            &&& headers@.len() == 4
            &&& user == Some(user_id)
            &&& now is Ok && timestamp == Some(decimal(now->Ok_0 as nat))
            &&& signature is Some && b64_decoded(signature->0) is Ok && b64_decoded(
                signature->0,
            )->Ok_0.len() == 96
            &&& vrf is Some && b64_decoded(vrf->0) is Ok && b64_decoded(vrf->0)->Ok_0.len() == 32
            &&& verifiable(key, encode_utf8(user->0 + timestamp->0)) ==> vxeddsa_verified(
                curve_public(key),
                encode_utf8(user->0 + timestamp->0),
                b64_decoded(signature->0)->Ok_0,
            ) == Some(b64_decoded(vrf->0)->Ok_0)
        }),
{
    let h = headers@;
    let a = auth_texts(user_id, key, now, nonce)->Ok_0;
    law_credentials_come_of_clock_and_signer(user_id, key, now, nonce);
    reveal_strlit("X-User-Id");
    reveal_strlit("X-Timestamp");
    reveal_strlit("X-Signature");
    reveal_strlit("X-Vrf");
    assert("X-Timestamp"@[2] != "X-Signature"@[2]);
    let list = header_texts(h);
    assert(list == auth_header_list(a));
    assert(list[0] == (h[0].0@, h[0].1@));
    assert(list[1] == (h[1].0@, h[1].1@));
    assert(list[2] == (h[2].0@, h[2].1@));
    assert(list[3] == (h[3].0@, h[3].1@));
    reveal_with_fuel(value_under, 5);
    assert(h.skip(1)[0] == h[1]);
    assert(h.skip(1).skip(1)[0] == h[2]);
    assert(h.skip(1).skip(1).skip(1)[0] == h[3]);
    assert(h.len() == 4);
    assert("X-User-Id"@.len() == 9 && "X-Timestamp"@.len() == 11);
    assert("X-Signature"@.len() == 11 && "X-Vrf"@.len() == 5);
    assert(value_under(h, "X-User-Id"@) == Some(a.user_id));
    assert(value_under(h, "X-Timestamp"@) == Some(a.timestamp));
    assert(value_under(h, "X-Signature"@) == Some(a.signature));
    assert(value_under(h, "X-Vrf"@) == Some(a.vrf));
    let signed = vxeddsa_signed(key, encode_utf8(user_id + decimal(now->Ok_0 as nat)), nonce);
    assert(signed is Ok);
    assert(attests(key, encode_utf8(user_id + decimal(now->Ok_0 as nat)), nonce));
}

/// A request goes to its URL with headers that can be checked. There is one whenever there are
/// credentials and the user id can stand in a header; otherwise the error says what was missing.
pub proof fn law_request_goes_out_with_credentials(
    url: Seq<char>,
    credentials: Result<AuthTexts, Failure>,
    r: Result<ApiRequest, SdkError>,
)
    requires
        request_view(r) == request_to(url, credentials),
    ensures
        match (r, credentials) {
            (Ok(q), Ok(a)) => {
                &&& is_header_value(a.user_id)
                &&& q.url@ == url
                &&& headers_view(Ok(q.headers)) == auth_header_result(credentials)
            },
            (Err(e), Ok(a)) => !is_header_value(a.user_id) && e@ == Failure::Api(
                "failed to parse header value"@,
            ),
            (Err(e), Err(f)) => e@ == f,
            (Ok(_), Err(_)) => false,
        },
{
}

// ---------------------------------------------------------------------------
// Device registration
// ---------------------------------------------------------------------------

/// The body of a device registration.
pub struct DeviceRegisterRequest {
    pub state: String,
    pub state_signature: String,
    pub state_vrf: String,
    pub phone: String,
    pub signed_pre_key: String,
    pub pre_key_sign: String,
    pub pre_key_vrf: String,
    pub opks: Vec<String>,
    pub signed_device_key: String,
    pub dev_key_sign: String,
    pub dev_key_vrf: String,
}

/// The contents of a [`DeviceRegisterRequest`].
#[verifier::ext_equal]
pub struct Registration {
    pub state: Seq<char>,
    pub state_signed: (Seq<char>, Seq<char>),
    pub phone: Seq<char>,
    pub signed_pre_key: Seq<char>,
    pub pre_key_signed: (Seq<char>, Seq<char>),
    pub opks: Seq<Seq<char>>,
    pub signed_device_key: Seq<char>,
    pub dev_key_signed: (Seq<char>, Seq<char>),
}

impl View for DeviceRegisterRequest {
    type V = Registration;

    open spec fn view(&self) -> Registration {
        Registration {
            state: self.state@,
            state_signed: (self.state_signature@, self.state_vrf@),
            phone: self.phone@,
            signed_pre_key: self.signed_pre_key@,
            pre_key_signed: (self.pre_key_sign@, self.pre_key_vrf@),
            opks: texts(self.opks@),
            signed_device_key: self.signed_device_key@,
            dev_key_signed: (self.dev_key_sign@, self.dev_key_vrf@),
        }
    }
}

/// The bytes of a list of keys.
pub open spec fn key_bytes(keys: Seq<[u8; 33]>) -> Seq<Seq<u8>> {
    keys.map_values(|k: [u8; 33]| k@)
}

/// The base64 texts of a list of keys.
pub open spec fn key_texts(keys: Seq<Seq<u8>>) -> Seq<Seq<char>> {
    keys.map_values(|k: Seq<u8>| b64(k))
}

/// Writes a list of keys as base64.
pub fn encode_keys(keys: &[[u8; 33]]) -> (r: Vec<String>)
    ensures
        texts(r@) == key_texts(key_bytes(keys@)),
{
    let mut out: Vec<String> = Vec::new();
    for i in 0..keys.len()
        invariant
            out@.len() == i,
            i <= keys@.len(),
            forall|j: int| 0 <= j < i ==> (#[trigger] out@[j])@ == b64(keys@[j]@),
    {
        out.push(b64_encode(&keys[i]));
    }
    assert(texts(out@) =~= key_texts(key_bytes(keys@)));
    out
}

/// The body of a registration, with what signing gave.
pub open spec fn registration(
    state: Seq<char>,
    phone: Seq<char>,
    signed_pre_key: Seq<u8>,
    signed_device_key: Seq<u8>,
    opks: Seq<Seq<u8>>,
    state_signed: Result<(Seq<u8>, Seq<u8>), VXEdDSAError>,
    pre_key_signed: Result<(Seq<u8>, Seq<u8>), VXEdDSAError>,
    dev_key_signed: Result<(Seq<u8>, Seq<u8>), VXEdDSAError>,
) -> Result<Registration, Failure> {
    match (
        signature_texts(state_signed),
        signature_texts(pre_key_signed),
        signature_texts(dev_key_signed),
    ) {
        (Err(e), _, _) => Err(e),
        (_, Err(e), _) => Err(e),
        (_, _, Err(e)) => Err(e),
        (Ok(s), Ok(p), Ok(d)) => Ok(
            Registration {
                state,
                state_signed: s,
                phone,
                signed_pre_key: b64(signed_pre_key),
                pre_key_signed: p,
                opks: key_texts(opks),
                signed_device_key: b64(signed_device_key),
                dev_key_signed: d,
            },
        ),
    }
}

/// The contents of a registration's body.
pub open spec fn registration_view(r: Result<(String, DeviceRegisterRequest), SdkError>) -> Result<
    Registration,
    Failure,
> {
    match r {
        Ok(p) => Ok(p.1@),
        Err(e) => Err(e@),
    }
}

impl DeviceRegisterRequest {
    /// Puts a registration together from keys and signatures.
    pub fn new(
        state: &str,
        phone: &str,
        signed_pre_key_pub: &[u8; 33],
        signed_device_key_pub: &[u8; 33],
        opks_pub: &[[u8; 33]],
        state_signed: (String, String),
        pre_key_signed: (String, String),
        dev_key_signed: (String, String),
    ) -> (r: Self)
        ensures
            r@ == (Registration {
                state: state@,
                state_signed: (state_signed.0@, state_signed.1@),
                phone: phone@,
                signed_pre_key: b64(signed_pre_key_pub@),
                pre_key_signed: (pre_key_signed.0@, pre_key_signed.1@),
                opks: key_texts(key_bytes(opks_pub@)),
                signed_device_key: b64(signed_device_key_pub@),
                dev_key_signed: (dev_key_signed.0@, dev_key_signed.1@),
            }),
            r.state@ == state@,
            r.phone@ == phone@,
            r.state_signature == state_signed.0 && r.state_vrf == state_signed.1,
            r.pre_key_sign == pre_key_signed.0 && r.pre_key_vrf == pre_key_signed.1,
            r.dev_key_sign == dev_key_signed.0 && r.dev_key_vrf == dev_key_signed.1,
            r.signed_pre_key@ == b64(signed_pre_key_pub@),
            r.signed_device_key@ == b64(signed_device_key_pub@),
    {
        DeviceRegisterRequest {
            state: state.to_owned(),
            state_signature: state_signed.0,
            state_vrf: state_signed.1,
            phone: phone.to_owned(),
            signed_pre_key: b64_encode(signed_pre_key_pub),
            pre_key_sign: pre_key_signed.0,
            pre_key_vrf: pre_key_signed.1,
            opks: encode_keys(opks_pub),
            signed_device_key: b64_encode(signed_device_key_pub),
            dev_key_sign: dev_key_signed.0,
            dev_key_vrf: dev_key_signed.1,
        }
    }
}

/// Whether two texts hold a signature of `message` by `key` that verifies and the VRF output that
/// verifying gives, if any signature of `message` by `key` verifies.
pub open spec fn checks_out(
    key: Seq<u8>,
    message: Seq<u8>,
    signature: Seq<char>,
    vrf: Seq<char>,
) -> bool {
    &&& b64_decoded(signature) is Ok
    &&& b64_decoded(vrf) is Ok
    &&& verifiable(key, message) ==> vxeddsa_verified(
        curve_public(key),
        message,
        b64_decoded(signature)->Ok_0,
    ) == Some(b64_decoded(vrf)->Ok_0)
}

/// A registration as it is sent can be checked with the identity key alone: it holds the state and the
/// phone number as they were given, the public keys in base64, and signatures of the state, of the
/// signed pre-key and of the signed device key, each with its VRF output.
pub proof fn law_registration_can_be_checked(
    state: Seq<char>,
    phone: Seq<char>,
    secret: Seq<u8>,
    signed_pre_key: Seq<u8>,
    signed_device_key: Seq<u8>,
    opks: Seq<Seq<u8>>,
    nonces: (Seq<u8>, Seq<u8>, Seq<u8>),
    r: DeviceRegisterRequest,
)
    requires
        attests(secret, encode_utf8(state), nonces.0),
        attests(secret, signed_pre_key, nonces.1),
        attests(secret, signed_device_key, nonces.2),
        registration(
            state,
            phone,
            signed_pre_key,
            signed_device_key,
            opks,
            vxeddsa_signed(secret, encode_utf8(state), nonces.0),
            vxeddsa_signed(secret, signed_pre_key, nonces.1),
            vxeddsa_signed(secret, signed_device_key, nonces.2),
        ) == Ok::<Registration, Failure>(r@),
    ensures
        r.state@ == state,
        r.phone@ == phone,
        b64_decoded(r.signed_pre_key@) == Ok::<Seq<u8>, Seq<char>>(signed_pre_key),
        b64_decoded(r.signed_device_key@) == Ok::<Seq<u8>, Seq<char>>(signed_device_key),
        r.opks@.len() == opks.len(),
        forall|i: int|
            0 <= i < opks.len() ==> b64_decoded((#[trigger] r.opks@[i])@) == Ok::<
                Seq<u8>,
                Seq<char>,
            >(opks[i]),
        checks_out(secret, encode_utf8(state), r.state_signature@, r.state_vrf@),
        checks_out(secret, signed_pre_key, r.pre_key_sign@, r.pre_key_vrf@),
        checks_out(secret, signed_device_key, r.dev_key_sign@, r.dev_key_vrf@),
{
    let s1 = vxeddsa_signed(secret, encode_utf8(state), nonces.0)->Ok_0;
    let s2 = vxeddsa_signed(secret, signed_pre_key, nonces.1)->Ok_0;
    let s3 = vxeddsa_signed(secret, signed_device_key, nonces.2)->Ok_0;
    law_b64_is_read_back(s1.0);
    law_b64_is_read_back(s1.1);
    law_b64_is_read_back(s2.0);
    law_b64_is_read_back(s2.1);
    law_b64_is_read_back(s3.0);
    law_b64_is_read_back(s3.1);
    law_b64_is_read_back(signed_pre_key);
    law_b64_is_read_back(signed_device_key);
    assert(r@.opks == key_texts(opks));
    assert(texts(r.opks@).len() == r.opks@.len());
    assert forall|i: int| 0 <= i < opks.len() implies b64_decoded((#[trigger] r.opks@[i])@) == Ok::<
        Seq<u8>,
        Seq<char>,
    >(opks[i]) by {
        assert(texts(r.opks@)[i] == r.opks@[i]@);
        assert(key_texts(opks)[i] == b64(opks[i]));
        law_b64_is_read_back(opks[i]);
    }
}

/// There is a registration exactly when all three signatures could be made; otherwise the error is that
/// of the first that could not.
pub proof fn law_registration_comes_of_three_signatures(
    state: Seq<char>,
    phone: Seq<char>,
    signed_pre_key: Seq<u8>,
    signed_device_key: Seq<u8>,
    opks: Seq<Seq<u8>>,
    state_signed: Result<(Seq<u8>, Seq<u8>), VXEdDSAError>,
    pre_key_signed: Result<(Seq<u8>, Seq<u8>), VXEdDSAError>,
    dev_key_signed: Result<(Seq<u8>, Seq<u8>), VXEdDSAError>,
)
    ensures
        ({
            let r = registration(
                state,
                phone,
                signed_pre_key,
                signed_device_key,
                opks,
                state_signed,
                pre_key_signed,
                dev_key_signed,
            );
            &&& r is Ok <==> state_signed is Ok && pre_key_signed is Ok && dev_key_signed is Ok
            &&& r is Err ==> r->Err_0 == Failure::VxEdDsa(
                if state_signed is Err {
                    state_signed->Err_0
                } else if pre_key_signed is Err {
                    pre_key_signed->Err_0
                } else {
                    dev_key_signed->Err_0
                },
            )
        }),
{
}

/// The error of a call that the server turned down says what the server said, behind the name of what
/// failed, which tells the calls apart.
pub proof fn law_refusals_say_what_the_server_said(call: ApiCall, other: ApiCall, body: Seq<char>)
    ensures
        (refusal_prefix(call) + body).skip(refusal_prefix(call).len() as int) == body,
        refusal_prefix(call) == refusal_prefix(other) ==> call == other,
        refusal_prefix(ApiCall::RegisterGoogleIdToken) == "Google ID token registration failed: "@,
        refusal_prefix(ApiCall::RegisterGooglePkce) == "Google PKCE registration failed: "@,
        refusal_prefix(ApiCall::RegisterDevice) == "Device registration failed: "@,
        refusal_prefix(ApiCall::GetBundle) == "Failed to fetch bundle: "@,
        refusal_prefix(ApiCall::GetSyncBundle) == "Failed to fetch sync bundle: "@,
{
    reveal_strlit("Google ID token registration failed: ");
    reveal_strlit("Google PKCE registration failed: ");
    reveal_strlit("Device registration failed: ");
    reveal_strlit("Failed to fetch bundle: ");
    reveal_strlit("Failed to fetch sync bundle: ");
    assert((refusal_prefix(call) + body).skip(refusal_prefix(call).len() as int) =~= body);
}

}
