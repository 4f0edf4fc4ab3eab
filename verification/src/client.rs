//! Client configuration and the flows behind the client's operations.
use vstd::prelude::*;
use vstd::string::*;
use vstd::utf8::*;

use crate::crypto::{array_view, auth_attested, auth_texts};
use crate::encoding::{is_header_value, seconds_at, seconds_view, unix_seconds, url_encoded};
use crate::error::{Failure, SdkError};
use crate::receive::key_reply;
use crate::registration::{ids_view, DeviceIds};
use crate::sending::{begin_send, optional_str, send_begun, SendStep};
use crate::session::optional_text;
use crate::text::{decimal, law_decimal_is_read_back, parse_unsigned, parsed};
use crate::transport::{checks_out, law_headers_can_be_checked, request_to, request_view};
use crate::transport::{law_request_goes_out_with_credentials, value_under, ApiClient};
use crate::transport::{ApiRequest, Request};

verus! {

/// Configuration settings for the client.
#[derive(Clone, Debug)]
pub struct ClientConfig {
    /// Base URL of the REST API (e.g. `https://api.chatz.deez.in`).
    pub rest_url: String,
    /// Hostname or IP address of the MQTT broker (e.g. `mqtt.deez.in`).
    pub mqtt_url: String,
    /// Port number of the MQTT broker (typically `8883` for TLS, `1883` for plaintext).
    pub mqtt_port: u16,
    /// Number of one-time pre-keys to generate and upload during device registration.
    pub opk_count: u32,
    /// Whether to use TLS when connecting to the MQTT broker.
    pub use_tls: bool,
}

/// The contents of a [`ClientConfig`].
#[verifier::ext_equal]
pub struct Config {
    pub rest_url: Seq<char>,
    pub mqtt_url: Seq<char>,
    pub mqtt_port: u16,
    pub opk_count: u32,
    pub use_tls: bool,
}

impl View for ClientConfig {
    type V = Config;

    open spec fn view(&self) -> Config {
        Config {
            rest_url: self.rest_url@,
            mqtt_url: self.mqtt_url@,
            mqtt_port: self.mqtt_port,
            opk_count: self.opk_count,
            use_tls: self.use_tls,
        }
    }
}

/// The production environment.
pub open spec fn production_config() -> Config {
    Config {
        rest_url: "https://api.chatz.deez.in"@,
        mqtt_url: "mqtt.deez.in"@,
        mqtt_port: 8883,
        opk_count: 100,
        use_tls: true,
    }
}

/// A local development environment.
pub open spec fn development_config() -> Config {
    Config {
        rest_url: "http://localhost:3000"@,
        mqtt_url: "localhost"@,
        mqtt_port: 1883,
        opk_count: 100,
        use_tls: false,
    }
}

impl ClientConfig {
    /// The preset configuration for the production environment.
    ///
    /// - REST API: `https://api.chatz.deez.in`
    /// - MQTT broker: `mqtt.deez.in:8883` (TLS enabled)
    /// - OPK count: 100
    pub fn production() -> (r: Self)
        ensures
            r@ == production_config(),
    {
        ClientConfig {
            rest_url: "https://api.chatz.deez.in".to_owned(),
            mqtt_url: "mqtt.deez.in".to_owned(),
            mqtt_port: 8883,
            opk_count: 100,
            use_tls: true,
        }
    }

    /// The preset configuration for local development.
    ///
    /// - REST API: `http://localhost:3000`
    /// - MQTT broker: `localhost:1883` (TLS disabled)
    /// - OPK count: 100
    pub fn development() -> (r: Self)
        ensures
            r@ == development_config(),
    {
        ClientConfig {
            rest_url: "http://localhost:3000".to_owned(),
            mqtt_url: "localhost".to_owned(),
            mqtt_port: 1883,
            opk_count: 100,
            use_tls: false,
        }
    }
}

/// `c` in lower case, if it is an ASCII letter.
pub open spec fn ascii_lower(c: char) -> char {
    if 'A' <= c <= 'Z' {
        (c as u32 + 32) as char
    } else {
        c
    }
}

/// Whether `s` is `t` up to the case of ASCII letters.
pub open spec fn same_ignoring_case(s: Seq<char>, t: Seq<char>) -> bool {
    s.len() == t.len() && forall|i: int|
        0 <= i < s.len() ==> ascii_lower(#[trigger] s[i]) == ascii_lower(t[i])
}

/// Whether two characters are the same up to the case of ASCII letters.
fn same_char_ignoring_case(a: char, b: char) -> (r: bool)
    ensures
        r == (ascii_lower(a) == ascii_lower(b)),
{
    let x: u32 = a as u32;
    let y: u32 = b as u32;
    let x: u32 = if 'A' <= a && a <= 'Z' {
        x + 32
    } else {
        x
    };
    let y: u32 = if 'A' <= b && b <= 'Z' {
        y + 32
    } else {
        y
    };
    x == y
}

/// Whether two texts are the same up to the case of ASCII letters.
fn is_same_ignoring_case(s: &str, t: &str) -> (r: bool)
    ensures
        r == same_ignoring_case(s@, t@),
{
    let n: usize = s.unicode_len();
    if n != t.unicode_len() {
        return false;
    }
    let mut i: usize = 0;
    while i < n
        invariant
            i <= n,
            n == s@.len(),
            n == t@.len(),
            forall|j: int| 0 <= j < i ==> ascii_lower(#[trigger] s@[j]) == ascii_lower(t@[j]),
        decreases n - i,
    {
        if !same_char_ignoring_case(s.get_char(i), t.get_char(i)) {
            assert(ascii_lower(s@[i as int]) != ascii_lower(t@[i as int]));
            return false;
        }
        i = i + 1;
    }
    true
}

/// The values of the configuration variables, where they are set.
#[verifier::ext_equal]
pub struct Vars {
    pub api_url: Option<Seq<char>>,
    pub mqtt_url: Option<Seq<char>>,
    pub mqtt_port: Option<Seq<char>>,
    pub opk_count: Option<Seq<char>>,
    pub use_tls: Option<Seq<char>>,
}

/// A number that a variable holds, or `default` if it is not set or holds none.
pub open spec fn number_or(value: Option<Seq<char>>, max: nat, default: nat) -> nat {
    match value {
        Some(s) => match parsed(s, max) {
            Some(n) => n,
            None => default,
        },
        None => default,
    }
}

/// Whether a variable asks for TLS: `1` and `true` turn it on, `0` and `false` turn it off, in any
/// case. Any other value asks for nothing.
pub open spec fn tls_choice(value: Seq<char>) -> Option<bool> {
    if value == "1"@ || same_ignoring_case(value, "true"@) {
        Some(true)
    } else if value == "0"@ || same_ignoring_case(value, "false"@) {
        Some(false)
    } else {
        None
    }
}

/// The configuration that variables ask for, with production defaults. Where nothing is asked for
/// TLS, it is on for port 8883.
pub open spec fn config_from(vars: Vars) -> Config {
    let port = number_or(vars.mqtt_port, 65535, 8883) as u16;
    Config {
        rest_url: match vars.api_url {
            Some(s) => s,
            None => "https://api.chatz.deez.in"@,
        },
        mqtt_url: match vars.mqtt_url {
            Some(s) => s,
            None => "mqtt.deez.in"@,
        },
        mqtt_port: port,
        opk_count: number_or(vars.opk_count, 0xffff_ffff, 100) as u32,
        use_tls: match vars.use_tls {
            Some(s) => match tls_choice(s) {
                Some(on) => on,
                None => port == 8883,
            },
            None => port == 8883,
        },
    }
}

/// Reads a number from a variable.
fn read_number(value: &Option<String>, max: u32, default: u32) -> (r: u32)
    ensures
        r == number_or(optional_text(*value), max as nat, default as nat),
{
    match value {
        Some(s) => match parse_unsigned(s.as_str(), max) {
            Some(n) => n,
            None => default,
        },
        None => default,
    }
}

/// Reads whether a variable asks for TLS.
fn read_tls_choice(value: &String) -> (r: Option<bool>)
    ensures
        r == tls_choice(value@),
{
    if *value == "1".to_owned() || is_same_ignoring_case(value.as_str(), "true") {
        Some(true)
    } else if *value == "0".to_owned() || is_same_ignoring_case(value.as_str(), "false") {
        Some(false)
    } else {
        None
    }
}

impl ClientConfig {
    /// The configuration that environment variables ask for, given the values of those that are
    /// set, with production defaults:
    ///
    /// - `DEEZCHATZ_API_URL`: REST API base URL (default: `https://api.chatz.deez.in`)
    /// - `DEEZCHATZ_MQTT_URL`: MQTT host (default: `mqtt.deez.in`)
    /// - `DEEZCHATZ_MQTT_PORT`: MQTT port (default: `8883`)
    /// - `DEEZCHATZ_OPK_COUNT`: OPK count (default: `100`)
    /// - `DEEZCHATZ_USE_TLS`: enable TLS (`"true"`, `"1"`, or inferred from port 8883)
    pub fn from_vars(
        api_url: Option<String>,
        mqtt_url: Option<String>,
        mqtt_port: Option<String>,
        opk_count: Option<String>,
        use_tls: Option<String>,
    ) -> (r: Self)
        ensures
            r@ == config_from(
                Vars {
                    api_url: optional_text(api_url),
                    mqtt_url: optional_text(mqtt_url),
                    mqtt_port: optional_text(mqtt_port),
                    opk_count: optional_text(opk_count),
                    use_tls: optional_text(use_tls),
                },
            ),
    {
        let port: u16 = read_number(&mqtt_port, 65535, 8883) as u16;
        let count: u32 = read_number(&opk_count, 0xffff_ffff, 100);
        let tls: bool = match use_tls {
            Some(s) => match read_tls_choice(&s) {
                Some(on) => on,
                None => port == 8883,
            },
            None => port == 8883,
        };
        let rest_url = match api_url {
            Some(s) => s,
            None => "https://api.chatz.deez.in".to_owned(),
        };
        let mqtt_url = match mqtt_url {
            Some(s) => s,
            None => "mqtt.deez.in".to_owned(),
        };
        ClientConfig { rest_url, mqtt_url, mqtt_port: port, opk_count: count, use_tls: tls }
    }
}

/// TLS is turned on by `1` or `true`, turned off by `0` or `false`, and otherwise decided by the
/// port.
pub proof fn law_port_decides_unless_asked(vars: Vars)
    ensures
        config_from(vars).use_tls <==> match vars.use_tls {
            Some(s) => tls_choice(s) == Some(true) || (tls_choice(s) is None && config_from(
                vars,
            ).mqtt_port == 8883),
            None => config_from(vars).mqtt_port == 8883,
        },
{
}

/// Without any variable the configuration is that of the production environment.
pub proof fn law_defaults_are_production()
    ensures
        config_from(
            Vars { api_url: None, mqtt_url: None, mqtt_port: None, opk_count: None, use_tls: None },
        ) == production_config(),
{
}

/// Metadata returned once an encrypted message is enqueued and handed to the broker.
#[derive(Debug, Clone, PartialEq, Eq)]
pub struct SentMessage {
    /// Unique identifier (UUIDv4) assigned to the outbound message.
    pub message_id: String,
    /// The canonical recipient user ID resolved for this message.
    pub recipient_user_id: String,
}

// ---------------------------------------------------------------------------
// The client's state
// ---------------------------------------------------------------------------

/// What a client knows of itself.
pub struct ClientState {
    config: ClientConfig,
    user_id: Option<String>,
    device_id: Option<String>,
}

/// The contents of a [`ClientState`].
#[verifier::ext_equal]
pub struct State {
    pub config: Config,
    pub user_id: Option<Seq<char>>,
    pub device_id: Option<Seq<char>>,
}

impl ClientState {
    /// What the client knows of itself.
    pub closed spec fn view(&self) -> State {
        State {
            config: self.config@,
            user_id: optional_text(self.user_id),
            device_id: optional_text(self.device_id),
        }
    }

    /// A client that is neither registered nor connected.
    pub fn new(config: ClientConfig) -> (r: Self)
        ensures
            r@ == (State { config: config@, user_id: None, device_id: None }),
    {
        ClientState { config, user_id: None, device_id: None }
    }

    /// The client's configuration.
    pub fn config(&self) -> (r: &ClientConfig)
        ensures
            r@ == self@.config,
    {
        &self.config
    }

    /// The user's id, if registered or connected.
    pub fn user_id(&self) -> (r: Option<&str>)
        ensures
            optional_str(r) == self@.user_id,
    {
        match &self.user_id {
            Some(s) => Some(s.as_str()),
            None => None,
        }
    }

    /// The device's id, if registered or connected.
    pub fn device_id(&self) -> (r: Option<&str>)
        ensures
            optional_str(r) == self@.device_id,
    {
        match &self.device_id {
            Some(s) => Some(s.as_str()),
            None => None,
        }
    }

    /// Takes the ids of a finished registration.
    pub fn registered(&mut self, ids: DeviceIds)
        ensures
            final(self)@ == (State {
                config: old(self)@.config,
                user_id: Some(ids_view(ids).0),
                device_id: Some(ids_view(ids).1),
            }),
    {
        self.user_id = Some(ids.user_id);
        self.device_id = Some(ids.device_id);
    }

    /// Takes the ids of a connection, given the connection or why there is none. Without one the ids
    /// stay as they were. The outcome is handed on.
    pub fn connected<T>(
        &mut self,
        user_id: &str,
        device_id: &str,
        outcome: Result<T, SdkError>,
    ) -> (r: Result<T, SdkError>)
        ensures
            r == outcome,
            final(self)@ == match outcome {
                Ok(_) => State {
                    config: old(self)@.config,
                    user_id: Some(user_id@),
                    device_id: Some(device_id@),
                },
                Err(_) => old(self)@,
            },
    {
        if outcome.is_ok() {
            self.user_id = Some(user_id.to_owned());
            self.device_id = Some(device_id.to_owned());
        }
        outcome
    }

    /// Starts to send `payload` to `recipient`.
    pub fn begin_send(&self, recipient: &str, payload: &[u8]) -> (r: SendStep)
        ensures
            r@ == send_begun(self@.user_id, self@.device_id, recipient@, payload@),
    {
        begin_send(self.user_id(), self.device_id(), recipient, payload)
    }

    /// Starts to look up the profile of a user.
    pub fn begin_sync(&self, target_user_id: &str) -> (r: Result<AwaitSyncKey, SdkError>)
        ensures
            match self@.user_id {
                Some(u) => r matches Ok(q) && q.user_id@ == u && q.target@ == target_user_id@,
                None => r matches Err(e) && e@ == Failure::InvalidOperation("User ID not set"@),
            },
    {
        match self.user_id() {
            Some(u) => Ok(
                AwaitSyncKey { user_id: u.to_owned(), target: target_user_id.to_owned() },
            ),
            None => Err(SdkError::InvalidOperation("User ID not set".to_owned())),
        }
    }
}

// ---------------------------------------------------------------------------
// Connecting
// ---------------------------------------------------------------------------

/// The key that signs the broker password, or the error of a connection without one.
pub open spec fn connect_key_of(reply: Result<Option<(Seq<u8>, Seq<u8>)>, Failure>) -> Result<
    Seq<u8>,
    Failure,
> {
    match reply {
        Err(e) => Err(e),
        Ok(None) => Err(Failure::Storage("Signed Pre-Key missing from keystore"@)),
        Ok(Some(k)) => Ok(k.0),
    }
}

/// Takes the signed pre-key under [`SIGNED_PRE_KEY_ID`](crate::signal::SIGNED_PRE_KEY_ID), whose
/// secret signs the broker password.
pub fn connect_key(reply: Result<Option<([u8; 32], [u8; 33])>, SdkError>) -> (r: Result<
    [u8; 32],
    SdkError,
>)
    ensures
        array_view(r) == connect_key_of(key_reply(reply)),
{
    match reply {
        Err(e) => Err(e),
        Ok(None) => Err(SdkError::Storage("Signed Pre-Key missing from keystore".to_owned())),
        Ok(Some(k)) => Ok(k.0),
    }
}

// ---------------------------------------------------------------------------
// Looking up profiles
// ---------------------------------------------------------------------------

/// Needs the identity key, which signs the request.
pub struct AwaitSyncKey {
    pub user_id: String,
    pub target: String,
}

/// The request for a profile, given the store's answer: signed with the identity key at the time
/// `now`, when the signer draws `nonce`.
pub open spec fn sync_request(
    base_url: Seq<char>,
    user_id: Seq<char>,
    target: Seq<char>,
    reply: Result<Option<(Seq<u8>, Seq<u8>)>, Failure>,
    now: Result<u64, Seq<char>>,
    nonce: Seq<u8>,
) -> Result<Request, Failure> {
    match reply {
        Err(e) => Err(e),
        Ok(None) => Err(Failure::Storage("Identity key missing from keystore"@)),
        Ok(Some(k)) => request_to(
            base_url + "/bundle/sync/"@ + url_encoded(target),
            auth_texts(user_id, k.0, now, nonce),
        ),
    }
}

impl AwaitSyncKey {
    /// Takes the identity key and gives the request, at the time `now`.
    pub fn resume_at(
        self,
        api: &ApiClient,
        reply: Result<Option<([u8; 32], [u8; 33])>, SdkError>,
        now: Result<u64, String>,
    ) -> (r: Result<ApiRequest, SdkError>)
        ensures
            exists|nonce: Seq<u8>|
                request_view(r) == #[trigger] sync_request(
                    api.base_url@,
                    self.user_id@,
                    self.target@,
                    key_reply(reply),
                    seconds_view(now),
                    nonce,
                ) && (reply matches Ok(Some(k)) ==> auth_attested(
                    self.user_id@,
                    k.0@,
                    seconds_view(now),
                    nonce,
                )),
    {
        let ghost answer = key_reply(reply);
        let ghost clock = seconds_view(now);
        let key = match reply {
            Ok(Some(k)) => k,
            Ok(None) => {
                let r = Err(SdkError::Storage("Identity key missing from keystore".to_owned()));
                assert(request_view(r) == sync_request(
                    api.base_url@,
                    self.user_id@,
                    self.target@,
                    answer,
                    clock,
                    Seq::empty(),
                ));
                return r;
            },
            Err(e) => {
                let r = Err(e);
                assert(request_view(r) == sync_request(
                    api.base_url@,
                    self.user_id@,
                    self.target@,
                    answer,
                    clock,
                    Seq::empty(),
                ));
                return r;
            },
        };
        let r = api.sync_bundle_request_at(
            self.user_id.as_str(),
            &key.0,
            self.target.as_str(),
            now,
        );
        proof {
            let nonce = choose|nonce: Seq<u8>|
                request_view(r) == request_to(
                    api.base_url@ + "/bundle/sync/"@ + url_encoded(self.target@),
                    #[trigger] auth_texts(self.user_id@, key.0@, clock, nonce),
                ) && auth_attested(self.user_id@, key.0@, clock, nonce);
            assert(request_view(r) == sync_request(
                api.base_url@,
                self.user_id@,
                self.target@,
                answer,
                clock,
                nonce,
            ));
        }
        r
    }

    /// Takes the identity key and gives the request, at the current time.
    pub fn resume(
        self,
        api: &ApiClient,
        reply: Result<Option<([u8; 32], [u8; 33])>, SdkError>,
    ) -> (r: Result<ApiRequest, SdkError>)
        ensures
            exists|t: std::time::SystemTime, nonce: Seq<u8>|
                request_view(r) == #[trigger] sync_request(
                    api.base_url@,
                    self.user_id@,
                    self.target@,
                    key_reply(reply),
                    seconds_at(t),
                    nonce,
                ) && (reply matches Ok(Some(k)) ==> auth_attested(
                    self.user_id@,
                    k.0@,
                    seconds_at(t),
                    nonce,
                )),
    {
        self.resume_at(api, reply, unix_seconds())
    }
}

/// A configuration is what the variables ask for: the addresses are those that are set, the numbers are
/// those that are set if they are numbers in range, and whatever is not set is as in production.
pub proof fn law_variables_are_followed(vars: Vars, c: ClientConfig)
    requires
        c@ == config_from(vars),
    ensures
        match vars.api_url {
            Some(url) => c.rest_url@ == url,
            None => c.rest_url@ == "https://api.chatz.deez.in"@,
        },
        match vars.mqtt_url {
            Some(url) => c.mqtt_url@ == url,
            None => c.mqtt_url@ == "mqtt.deez.in"@,
        },
        forall|n: nat|
            n <= 65535 && vars.mqtt_port == Some(#[trigger] decimal(n)) ==> c.mqtt_port == n,
        forall|n: nat|
            n <= 0xffff_ffff && vars.opk_count == Some(#[trigger] decimal(n)) ==> c.opk_count == n,
        vars.mqtt_port matches Some(s) && parsed(s, 65535) is None ==> c.mqtt_port == 8883,
        vars.opk_count matches Some(s) && parsed(s, 0xffff_ffff) is None ==> c.opk_count == 100,
        vars.mqtt_port is None ==> c.mqtt_port == 8883,
        vars.opk_count is None ==> c.opk_count == 100,
        vars.use_tls is None ==> (c.use_tls <==> c.mqtt_port == 8883),
        vars.use_tls matches Some(s) && tls_choice(s) is None ==> (c.use_tls <==> c.mqtt_port
            == 8883),
        vars.use_tls matches Some(s) ==> (tls_choice(s) is Some ==> c.use_tls == tls_choice(s)->0),
{
    assert forall|n: nat|
        n <= 65535 && vars.mqtt_port == Some(#[trigger] decimal(n)) implies c.mqtt_port == n by {
        law_decimal_is_read_back(n, 65535);
    }
    assert forall|n: nat|
        n <= 0xffff_ffff && vars.opk_count == Some(#[trigger] decimal(n)) implies c.opk_count
        == n by {
        law_decimal_is_read_back(n, 0xffff_ffff);
    }
}

/// Whether a character is a letter in either case.
pub open spec fn is_letter(c: char, lower: char, upper: char) -> bool {
    c == lower || c == upper
}

/// The words for TLS: `1` and `true` turn it on, `0` and `false` turn it off, whatever the case of each
/// letter. No other word says anything.
pub proof fn law_words_for_tls(v: Seq<char>)
    ensures
        tls_choice(v) == Some(true) <==> v == seq!['1'] || (v.len() == 4 && is_letter(v[0], 't', 'T')
            && is_letter(v[1], 'r', 'R') && is_letter(v[2], 'u', 'U') && is_letter(v[3], 'e', 'E')),
        tls_choice(v) == Some(false) <==> v == seq!['0'] || (v.len() == 5 && is_letter(
            v[0],
            'f',
            'F',
        ) && is_letter(v[1], 'a', 'A') && is_letter(v[2], 'l', 'L') && is_letter(v[3], 's', 'S')
            && is_letter(v[4], 'e', 'E')),
{
    reveal_strlit("1");
    reveal_strlit("0");
    reveal_strlit("true");
    reveal_strlit("false");
    assert("1"@ =~= seq!['1']);
    assert("0"@ =~= seq!['0']);
    let yes = "true"@;
    let no = "false"@;
    if same_ignoring_case(v, yes) {
        assert(ascii_lower(v[0]) == ascii_lower(yes[0]));
        assert(ascii_lower(v[1]) == ascii_lower(yes[1]));
        assert(ascii_lower(v[2]) == ascii_lower(yes[2]));
        assert(ascii_lower(v[3]) == ascii_lower(yes[3]));
    }
    if same_ignoring_case(v, no) {
        assert(ascii_lower(v[0]) == ascii_lower(no[0]));
        assert(ascii_lower(v[1]) == ascii_lower(no[1]));
        assert(ascii_lower(v[2]) == ascii_lower(no[2]));
        assert(ascii_lower(v[3]) == ascii_lower(no[3]));
        assert(ascii_lower(v[4]) == ascii_lower(no[4]));
    }
    assert(seq!['0'][0] == '0' && seq!['1'][0] == '1');
    if v.len() == 5 && is_letter(v[0], 'f', 'F') && is_letter(v[1], 'a', 'A') && is_letter(
        v[2],
        'l',
        'L',
    ) && is_letter(v[3], 's', 'S') && is_letter(v[4], 'e', 'E') {
        assert forall|i: int| 0 <= i < 5 implies ascii_lower(#[trigger] v[i]) == ascii_lower(
            no[i],
        ) by {
            if i == 0 {
            } else if i == 1 {
            } else if i == 2 {
            } else if i == 3 {
            } else {
                assert(i == 4);
            }
        }
    }
}

/// The presets connect over TLS exactly where the port is the one for TLS. The one for production is on
/// the public servers, the one for development on the local machine.
pub proof fn law_presets()
    ensures
        production_config().use_tls && production_config().mqtt_port == 8883,
        !development_config().use_tls && development_config().mqtt_port == 1883,
        production_config().opk_count == 100 && development_config().opk_count == 100,
        production_config().rest_url == "https://api.chatz.deez.in"@,
        production_config().mqtt_url == "mqtt.deez.in"@,
        development_config().rest_url == "http://localhost:3000"@,
        development_config().mqtt_url == "localhost"@,
{
}

/// The password for the broker is signed with the secret of the signed pre-key out of the store, and
/// without that key there is no connection.
pub proof fn law_password_is_signed_with_the_signed_pre_key(
    reply: Result<Option<([u8; 32], [u8; 33])>, SdkError>,
    r: Result<[u8; 32], SdkError>,
)
    requires
        array_view(r) == connect_key_of(key_reply(reply)),
    ensures
        match (reply, r) {
            (Ok(Some(k)), Ok(secret)) => secret@ == k.0@,
            (Ok(None), Err(e)) => e@ == Failure::Storage("Signed Pre-Key missing from keystore"@),
            (Err(e), Err(f)) => f@ == e@,
            _ => false,
        },
{
}

/// The request for a profile goes to the profile of the user that was asked for, in the name of the own
/// user, and can be checked with the own public identity key. Without that key there is no request.
pub proof fn law_profile_request_can_be_checked(
    base_url: Seq<char>,
    user_id: Seq<char>,
    target: Seq<char>,
    key: (Seq<u8>, Seq<u8>),
    now: Result<u64, Seq<char>>,
    nonce: Seq<u8>,
    e: Failure,
    q: ApiRequest,
)
    requires
        auth_attested(user_id, key.0, now, nonce),
        request_view(Ok(q)) == sync_request(
            base_url,
            user_id,
            target,
            Ok(Some(key)),
            now,
            nonce,
        ),
    ensures
        ({
            let user = value_under(q.headers@, "X-User-Id"@);
            let timestamp = value_under(q.headers@, "X-Timestamp"@);
            let signature = value_under(q.headers@, "X-Signature"@);
            let vrf = value_under(q.headers@, "X-Vrf"@);
            &&& q.url@ == base_url + "/bundle/sync/"@ + url_encoded(target)
            &&& user == Some(user_id)
            &&& timestamp is Some && signature is Some && vrf is Some
            &&& checks_out(
                key.0,
                encode_utf8(user_id + timestamp->0),
                signature->0,
                vrf->0,
            )
        }),
        sync_request(base_url, user_id, target, Err(e), now, nonce) == Err::<Request, Failure>(e),
        sync_request(base_url, user_id, target, Ok(None), now, nonce) == Err::<Request, Failure>(
            Failure::Storage("Identity key missing from keystore"@),
        ),
{
    law_request_goes_out_with_credentials(
        base_url + "/bundle/sync/"@ + url_encoded(target),
        auth_texts(user_id, key.0, now, nonce),
        Ok(q),
    );
    law_headers_can_be_checked(user_id, key.0, now, nonce, q.headers);
}

/// There is a request for a profile whenever there are credentials of the own user, signed with the own
/// identity key, that can stand in headers.
pub proof fn law_profile_request_comes_of_credentials(
    base_url: Seq<char>,
    user_id: Seq<char>,
    target: Seq<char>,
    key: (Seq<u8>, Seq<u8>),
    now: Result<u64, Seq<char>>,
    nonce: Seq<u8>,
    r: Result<ApiRequest, SdkError>,
)
    requires
        request_view(r) == sync_request(base_url, user_id, target, Ok(Some(key)), now, nonce),
    ensures
        match auth_texts(user_id, key.0, now, nonce) {
            Ok(_) => r is Ok <==> is_header_value(user_id),
            Err(e) => r matches Err(f) && f@ == e,
        },
{
}

}
