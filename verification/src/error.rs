//! The unified error type.
use vstd::prelude::*;
use vstd::string::*;

use crate::payload::{fault_text, Fault, PayloadError};

verus! {

/// Error of a VXEdDSA operation.
#[derive(Debug, Clone, Copy, PartialEq, Eq, Structural)]
pub enum VXEdDSAError {
    /// The scalar was invalid (e.g. zero or non-canonical).
    InvalidScalar,
}

/// Error of an X3DH operation.
#[derive(Debug, Clone, Copy, PartialEq, Eq, Structural)]
pub enum X3DHError {
    InvalidSignature,
    InvalidKey,
    MissingOneTimeKey,
    DecodeFailed,
}

/// The unified error type of the SDK.
#[derive(Debug)]
pub enum SdkError {
    Api(String),
    /// The HTTP client's account of a failed request.
    Http(String),
    Mqtt(String),
    Crypto(String),
    VxEdDsa(VXEdDSAError),
    X3dh(X3DHError),
    Storage(String),
    InvalidOperation(String),
    Payload(PayloadError),
}

/// What an error says.
#[verifier::ext_equal]
pub enum Failure {
    Api(Seq<char>),
    Http(Seq<char>),
    Mqtt(Seq<char>),
    Crypto(Seq<char>),
    VxEdDsa(VXEdDSAError),
    X3dh(X3DHError),
    Storage(Seq<char>),
    InvalidOperation(Seq<char>),
    Payload(Fault),
}

impl View for SdkError {
    type V = Failure;

    open spec fn view(&self) -> Failure {
        match self {
            SdkError::Api(s) => Failure::Api(s@),
            SdkError::Http(s) => Failure::Http(s@),
            SdkError::Mqtt(s) => Failure::Mqtt(s@),
            SdkError::Crypto(s) => Failure::Crypto(s@),
            SdkError::VxEdDsa(e) => Failure::VxEdDsa(*e),
            SdkError::X3dh(e) => Failure::X3dh(*e),
            SdkError::Storage(s) => Failure::Storage(s@),
            SdkError::InvalidOperation(s) => Failure::InvalidOperation(s@),
            SdkError::Payload(e) => Failure::Payload(e@),
        }
    }
}

/// The name of a VXEdDSA error.
pub open spec fn vxeddsa_error_name(e: VXEdDSAError) -> Seq<char> {
    match e {
        VXEdDSAError::InvalidScalar => "InvalidScalar"@,
    }
}

/// The name of an X3DH error.
pub open spec fn x3dh_error_name(e: X3DHError) -> Seq<char> {
    match e {
        X3DHError::InvalidSignature => "InvalidSignature"@,
        X3DHError::InvalidKey => "InvalidKey"@,
        X3DHError::MissingOneTimeKey => "MissingOneTimeKey"@,
        X3DHError::DecodeFailed => "DecodeFailed"@,
    }
}

/// The message of a failure.
pub open spec fn failure_text(f: Failure) -> Seq<char> {
    match f {
        Failure::Api(s) => "API error: "@ + s,
        Failure::Http(s) => "HTTP error: "@ + s,
        Failure::Mqtt(s) => "MQTT error: "@ + s,
        Failure::Crypto(s) => "Crypto error: "@ + s,
        Failure::VxEdDsa(e) => "VXEdDSA error: "@ + vxeddsa_error_name(e),
        Failure::X3dh(e) => "X3DH error: "@ + x3dh_error_name(e),
        Failure::Storage(s) => "Storage error: "@ + s,
        Failure::InvalidOperation(s) => "Invalid operation: "@ + s,
        Failure::Payload(e) => "Payload error: "@ + fault_text(e),
    }
}

/// `prefix` followed by `rest`.
pub(crate) fn message(prefix: &str, rest: &str) -> (r: String)
    ensures
        r@ == prefix@ + rest@,
{
    let mut out: String = prefix.to_owned();
    out.append(rest);
    out
}

impl SdkError {
    /// The error of a session that cannot be written down, with the writer's account of why.
    pub fn session_serialize(e: &str) -> (r: Self)
        ensures
            r@ == Failure::Storage("Session serialize error: "@ + e@),
    {
        SdkError::Storage(message("Session serialize error: ", e))
    }

    /// The error of an envelope that cannot be written down, with the writer's account of why.
    pub fn payload_serialize(e: &str) -> (r: Self)
        ensures
            r@ == Failure::Crypto("Payload serialize error: "@ + e@),
    {
        SdkError::Crypto(message("Payload serialize error: ", e))
    }

    /// The message of this error.
    pub fn to_string(&self) -> (r: String)
        ensures
            r@ == failure_text(self@),
    {
        match self {
            SdkError::Api(s) => message("API error: ", s.as_str()),
            SdkError::Http(s) => message("HTTP error: ", s.as_str()),
            SdkError::Mqtt(s) => message("MQTT error: ", s.as_str()),
            SdkError::Crypto(s) => message("Crypto error: ", s.as_str()),
            SdkError::VxEdDsa(e) => match e {
                VXEdDSAError::InvalidScalar => message("VXEdDSA error: ", "InvalidScalar"),
            },
            SdkError::X3dh(e) => match e {
                X3DHError::InvalidSignature => message("X3DH error: ", "InvalidSignature"),
                X3DHError::InvalidKey => message("X3DH error: ", "InvalidKey"),
                X3DHError::MissingOneTimeKey => message("X3DH error: ", "MissingOneTimeKey"),
                X3DHError::DecodeFailed => message("X3DH error: ", "DecodeFailed"),
            },
            SdkError::Storage(s) => message("Storage error: ", s.as_str()),
            SdkError::InvalidOperation(s) => message("Invalid operation: ", s.as_str()),
            SdkError::Payload(e) => message("Payload error: ", e.to_string().as_str()),
        }
    }
}

impl From<VXEdDSAError> for SdkError {
    fn from(e: VXEdDSAError) -> (r: Self) {
        SdkError::VxEdDsa(e)
    }
}

impl vstd::std_specs::convert::FromSpecImpl<VXEdDSAError> for SdkError {
    open spec fn obeys_from_spec() -> bool {
        true
    }

    open spec fn from_spec(e: VXEdDSAError) -> Self {
        SdkError::VxEdDsa(e)
    }
}

impl From<X3DHError> for SdkError {
    fn from(e: X3DHError) -> (r: Self) {
        SdkError::X3dh(e)
    }
}

impl vstd::std_specs::convert::FromSpecImpl<X3DHError> for SdkError {
    open spec fn obeys_from_spec() -> bool {
        true
    }

    open spec fn from_spec(e: X3DHError) -> Self {
        SdkError::X3dh(e)
    }
}

impl From<PayloadError> for SdkError {
    fn from(e: PayloadError) -> (r: Self) {
        SdkError::Payload(e)
    }
}

impl vstd::std_specs::convert::FromSpecImpl<PayloadError> for SdkError {
    open spec fn obeys_from_spec() -> bool {
        true
    }

    open spec fn from_spec(e: PayloadError) -> Self {
        SdkError::Payload(e)
    }
}

/// The message of an error says what went wrong in the words in which it was reported, behind the kind
/// of error.
pub proof fn law_messages_keep_the_words(words: Seq<char>)
    ensures
        failure_text(Failure::Api(words)) == "API error: "@ + words,
        failure_text(Failure::Http(words)) == "HTTP error: "@ + words,
        failure_text(Failure::Mqtt(words)) == "MQTT error: "@ + words,
        failure_text(Failure::Crypto(words)) == "Crypto error: "@ + words,
        failure_text(Failure::Storage(words)) == "Storage error: "@ + words,
        failure_text(Failure::InvalidOperation(words)) == "Invalid operation: "@ + words,
        forall|f: Failure|
            f == Failure::Api(words) || f == Failure::Http(words) || f == Failure::Mqtt(words) || f
                == Failure::Crypto(words) || f == Failure::Storage(words) || f
                == Failure::InvalidOperation(words) ==> (#[trigger] failure_text(f)).len()
                > words.len() && failure_text(f).skip(failure_text(f).len() - words.len()) == words,
{
    reveal_strlit("API error: ");
    reveal_strlit("HTTP error: ");
    reveal_strlit("MQTT error: ");
    reveal_strlit("Crypto error: ");
    reveal_strlit("Storage error: ");
    reveal_strlit("Invalid operation: ");
    assert forall|f: Failure|
        f == Failure::Api(words) || f == Failure::Http(words) || f == Failure::Mqtt(words) || f
            == Failure::Crypto(words) || f == Failure::Storage(words) || f
            == Failure::InvalidOperation(words) implies (#[trigger] failure_text(f)).len()
        > words.len() && failure_text(f).skip(failure_text(f).len() - words.len()) == words by {
        assert(failure_text(f).skip(failure_text(f).len() - words.len()) =~= words);
    }
}

/// The message of an error tells what kind of error it is: no two kinds of error have the same message
/// for the same words.
pub proof fn law_messages_tell_the_kinds_apart(words: Seq<char>)
    ensures
        ({
            let texts = seq![
                failure_text(Failure::Api(words)),
                failure_text(Failure::Http(words)),
                failure_text(Failure::Mqtt(words)),
                failure_text(Failure::Crypto(words)),
                failure_text(Failure::Storage(words)),
                failure_text(Failure::InvalidOperation(words)),
            ];
            forall|i: int, j: int|
                0 <= i < j < texts.len() ==> #[trigger] texts[i] != #[trigger] texts[j]
        }),
{
    reveal_strlit("API error: ");
    reveal_strlit("HTTP error: ");
    reveal_strlit("MQTT error: ");
    reveal_strlit("Crypto error: ");
    reveal_strlit("Storage error: ");
    reveal_strlit("Invalid operation: ");
    let api = failure_text(Failure::Api(words));
    let http = failure_text(Failure::Http(words));
    let mqtt = failure_text(Failure::Mqtt(words));
    let crypto = failure_text(Failure::Crypto(words));
    let storage = failure_text(Failure::Storage(words));
    let invalid = failure_text(Failure::InvalidOperation(words));
    assert(api[0] == 'A' && http[0] == 'H' && mqtt[0] == 'M');
    assert(crypto[0] == 'C' && storage[0] == 'S' && invalid[0] == 'I');
}

/// The message of an error of the cryptography or of a payload names the error.
pub proof fn law_messages_name_the_error(e: VXEdDSAError, x: X3DHError, f: Fault)
    ensures
        failure_text(Failure::VxEdDsa(e)) == "VXEdDSA error: "@ + "InvalidScalar"@,
        failure_text(Failure::X3dh(x)) == "X3DH error: "@ + match x {
            X3DHError::InvalidSignature => "InvalidSignature"@,
            X3DHError::InvalidKey => "InvalidKey"@,
            X3DHError::MissingOneTimeKey => "MissingOneTimeKey"@,
            X3DHError::DecodeFailed => "DecodeFailed"@,
        },
        failure_text(Failure::Payload(f)) == "Payload error: "@ + fault_text(f),
{
}

}
