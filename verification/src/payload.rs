//! Framing of text, voice and image messages as bytes.
//!
//! A frame starts with a type byte. A text frame goes on with the UTF-8 bytes of the text, a voice
//! frame with the audio. An image frame holds the timestamp in four bytes, the length of the
//! caption in two bytes, both big-endian, the caption in UTF-8, and the image.
use vstd::prelude::*;
use vstd::slice::{slice_subrange, slice_to_vec};
use vstd::string::*;
use vstd::utf8::*;

use crate::text::{decimal, push_decimal};

verus! {

/// Discriminator byte for UTF-8 text messages.
pub const PAYLOAD_TYPE_TEXT: u8 = 0;

/// Discriminator byte for raw voice/audio messages.
pub const PAYLOAD_TYPE_VOICE: u8 = 1;

/// Discriminator byte for framed image messages.
pub const PAYLOAD_TYPE_IMAGE: u8 = 2;

// ---------------------------------------------------------------------------
// UTF-8
// ---------------------------------------------------------------------------

/// The error of `String::from_utf8`.
#[verifier::external_type_specification]
#[verifier::external_body]
pub struct ExFromUtf8Error(std::string::FromUtf8Error);

/// The bytes that `e` was raised for (`FromUtf8Error::as_bytes`).
pub uninterp spec fn rejected_bytes(e: std::string::FromUtf8Error) -> Seq<u8>;

/// The text with which `String::from_utf8` describes why `bytes` is not UTF-8
/// (`FromUtf8Error`'s `Display`).
pub uninterp spec fn utf8_complaint(bytes: Seq<u8>) -> Seq<char>;

/// `String::from_utf8` succeeds exactly on valid UTF-8 and then gives the string with those bytes;
/// its error carries the bytes that were handed in.
pub assume_specification[ String::from_utf8 ](bytes: Vec<u8>) -> (r: Result<
    String,
    std::string::FromUtf8Error,
>)
    ensures
        r matches Ok(s) ==> valid_utf8(bytes@) && encode_utf8(s@) == bytes@,
        r matches Err(e) ==> !valid_utf8(bytes@) && rejected_bytes(e) == bytes@,
;

/// The `Display` text of a `FromUtf8Error`, which the rejected bytes alone determine.
#[verifier::external_body]
fn utf8_error_text(e: &std::string::FromUtf8Error) -> (r: String)
    ensures
        r@ == utf8_complaint(rejected_bytes(*e)),
{
    e.to_string()
}

// ---------------------------------------------------------------------------
// Messages and errors
// ---------------------------------------------------------------------------

/// Errors that can occur during payload decoding.
#[derive(Debug, PartialEq, Eq)]
pub enum PayloadError {
    EmptyPayload,
    ImageHeaderTooShort,
    ImagePayloadTooShort,
    InvalidUtf8(std::string::FromUtf8Error),
    UnrecognizedType(u8),
}

/// Why a frame cannot be decoded.
pub enum Fault {
    Empty,
    HeaderTooShort,
    CaptionTruncated,
    NotUtf8(Seq<u8>),
    UnknownType(u8),
}

impl View for PayloadError {
    type V = Fault;

    open spec fn view(&self) -> Fault {
        match self {
            PayloadError::EmptyPayload => Fault::Empty,
            PayloadError::ImageHeaderTooShort => Fault::HeaderTooShort,
            PayloadError::ImagePayloadTooShort => Fault::CaptionTruncated,
            PayloadError::InvalidUtf8(e) => Fault::NotUtf8(rejected_bytes(*e)),
            PayloadError::UnrecognizedType(b) => Fault::UnknownType(*b),
        }
    }
}

/// The message that describes `fault`.
pub open spec fn fault_text(fault: Fault) -> Seq<char> {
    match fault {
        Fault::Empty => "Cannot decode empty message payload"@,
        Fault::HeaderTooShort => "Invalid image payload: header too short"@,
        Fault::CaptionTruncated => "Invalid image payload: payload shorter than caption length"@,
        Fault::NotUtf8(bytes) => "Invalid UTF-8 sequence: "@ + utf8_complaint(bytes),
        Fault::UnknownType(b) => "Unrecognized message payload type byte: "@ + decimal(b as nat),
    }
}

impl PayloadError {
    /// The message of this error.
    pub fn to_string(&self) -> (r: String)
        ensures
            r@ == fault_text(self@),
    {
        match self {
            PayloadError::EmptyPayload => "Cannot decode empty message payload".to_owned(),
            PayloadError::ImageHeaderTooShort => {
                "Invalid image payload: header too short".to_owned()
            },
            PayloadError::ImagePayloadTooShort => {
                "Invalid image payload: payload shorter than caption length".to_owned()
            },
            PayloadError::InvalidUtf8(e) => {
                let mut out = "Invalid UTF-8 sequence: ".to_owned();
                out.append(utf8_error_text(e).as_str());
                out
            },
            PayloadError::UnrecognizedType(b) => {
                let mut out = "Unrecognized message payload type byte: ".to_owned();
                push_decimal(&mut out, *b as u64);
                out
            },
        }
    }
}

impl From<std::string::FromUtf8Error> for PayloadError {
    fn from(e: std::string::FromUtf8Error) -> (r: Self) {
        PayloadError::InvalidUtf8(e)
    }
}

impl vstd::std_specs::convert::FromSpecImpl<std::string::FromUtf8Error> for PayloadError {
    open spec fn obeys_from_spec() -> bool {
        true
    }

    open spec fn from_spec(e: std::string::FromUtf8Error) -> Self {
        PayloadError::InvalidUtf8(e)
    }
}

/// Represents a decoded higher-order message payload.
#[derive(Debug, Clone, PartialEq, Eq)]
pub enum DecodedPayload {
    /// Plain text message
    Text { text: String },
    /// Voice message with raw audio bytes (e.g., Opus)
    Voice { audio_bytes: Vec<u8> },
    /// Image message with timestamp, caption, and raw image bytes (e.g., JPEG)
    Image { timestamp: u32, caption: String, image_bytes: Vec<u8> },
}

/// The contents of a message.
#[verifier::ext_equal]
pub enum Message {
    Text { text: Seq<char> },
    Voice { audio: Seq<u8> },
    Image { timestamp: u32, caption: Seq<char>, image: Seq<u8> },
}

impl View for DecodedPayload {
    type V = Message;

    open spec fn view(&self) -> Message {
        match self {
            DecodedPayload::Text { text } => Message::Text { text: text@ },
            DecodedPayload::Voice { audio_bytes } => Message::Voice { audio: audio_bytes@ },
            DecodedPayload::Image { timestamp, caption, image_bytes } => Message::Image {
                timestamp: *timestamp,
                caption: caption@,
                image: image_bytes@,
            },
        }
    }
}

// ---------------------------------------------------------------------------
// The frame format
// ---------------------------------------------------------------------------

/// `x` in four bytes, most significant first.
pub open spec fn be32(x: u32) -> Seq<u8> {
    seq![
        (x / 0x100_0000) as u8,
        (x / 0x1_0000 % 0x100) as u8,
        (x / 0x100 % 0x100) as u8,
        (x % 0x100) as u8,
    ]
}

/// `x` in two bytes, most significant first.
pub open spec fn be16(x: u16) -> Seq<u8> {
    seq![(x / 0x100) as u8, (x % 0x100) as u8]
}

/// The number that the first four bytes of `b` hold, most significant first.
pub open spec fn from_be32(b: Seq<u8>) -> u32 {
    (b[0] * 0x100_0000 + b[1] * 0x1_0000 + b[2] * 0x100 + b[3]) as u32
}

/// The number that the first two bytes of `b` hold, most significant first.
pub open spec fn from_be16(b: Seq<u8>) -> u16 {
    (b[0] * 0x100 + b[1]) as u16
}

/// The first 65535 bytes of `b`: what a two-byte length can count.
pub open spec fn clip(b: Seq<u8>) -> Seq<u8> {
    if b.len() <= u16::MAX {
        b
    } else {
        b.take(u16::MAX as int)
    }
}

/// The frame of `m`. A caption of more than 65535 bytes is cut off there.
pub open spec fn framed(m: Message) -> Seq<u8> {
    match m {
        Message::Text { text } => seq![PAYLOAD_TYPE_TEXT] + encode_utf8(text),
        Message::Voice { audio } => seq![PAYLOAD_TYPE_VOICE] + audio,
        Message::Image { timestamp, caption, image } => {
            let cap = clip(encode_utf8(caption));
            seq![PAYLOAD_TYPE_IMAGE] + be32(timestamp) + be16(cap.len() as u16) + cap + image
        },
    }
}

/// What `bytes` decodes to.
pub open spec fn decoded(bytes: Seq<u8>) -> Result<Message, Fault> {
    if bytes.len() == 0 {
        Err(Fault::Empty)
    } else if bytes[0] == PAYLOAD_TYPE_TEXT {
        if valid_utf8(bytes.skip(1)) {
            Ok(Message::Text { text: decode_utf8(bytes.skip(1)) })
        } else {
            Err(Fault::NotUtf8(bytes.skip(1)))
        }
    } else if bytes[0] == PAYLOAD_TYPE_VOICE {
        Ok(Message::Voice { audio: bytes.skip(1) })
    } else if bytes[0] == PAYLOAD_TYPE_IMAGE {
        if bytes.len() < 7 {
            Err(Fault::HeaderTooShort)
        } else {
            let end = 7 + from_be16(bytes.skip(5));
            if bytes.len() < end {
                Err(Fault::CaptionTruncated)
            } else {
                let caption = bytes.subrange(7, end);
                if valid_utf8(caption) {
                    Ok(
                        Message::Image {
                            timestamp: from_be32(bytes.skip(1)),
                            caption: decode_utf8(caption),
                            image: bytes.skip(end),
                        },
                    )
                } else {
                    Err(Fault::NotUtf8(caption))
                }
            }
        }
    } else {
        Err(Fault::UnknownType(bytes[0]))
    }
}

// ---------------------------------------------------------------------------
// Encoding
// ---------------------------------------------------------------------------

impl DecodedPayload {
    /// Encodes this payload into framed bytes.
    pub fn encode(&self) -> (r: Vec<u8>)
        ensures
            r@ == framed(self@),
    {
        match self {
            DecodedPayload::Text { text } => encode_text_payload(text.as_str()),
            DecodedPayload::Voice { audio_bytes } => encode_voice_payload(audio_bytes.as_slice()),
            DecodedPayload::Image { timestamp, caption, image_bytes } => encode_image_payload(
                *timestamp,
                caption.as_str(),
                image_bytes.as_slice(),
            ),
        }
    }
}

/// Encodes a text message string into framed bytes: `[0x00, ...utf8 bytes]`.
pub fn encode_text_payload(text: &str) -> (r: Vec<u8>)
    ensures
        r@ == framed(Message::Text { text: text@ }),
{
    let mut payload: Vec<u8> = Vec::new();
    payload.push(PAYLOAD_TYPE_TEXT);
    payload.extend_from_slice(text.as_bytes());
    assert(payload@ =~= seq![PAYLOAD_TYPE_TEXT] + encode_utf8(text@));
    payload
}

/// Encodes raw Opus audio bytes into framed bytes: `[0x01, ...audio bytes]`.
pub fn encode_voice_payload(audio_bytes: &[u8]) -> (r: Vec<u8>)
    ensures
        r@ == framed(Message::Voice { audio: audio_bytes@ }),
{
    let mut payload: Vec<u8> = Vec::new();
    payload.push(PAYLOAD_TYPE_VOICE);
    payload.extend_from_slice(audio_bytes);
    assert(payload@ =~= seq![PAYLOAD_TYPE_VOICE] + audio_bytes@);
    payload
}

/// Encodes an image into framed bytes:
/// `[0x02, 4-byte timestamp, 2-byte caption length, caption UTF-8 bytes, raw JPEG bytes]`.
///
/// A caption of more than 65535 bytes is cut off there.
pub fn encode_image_payload(timestamp_seconds: u32, caption: &str, image_bytes: &[u8]) -> (r: Vec<
    u8,
>)
    ensures
        r@ == framed(
            Message::Image {
                timestamp: timestamp_seconds,
                caption: caption@,
                image: image_bytes@,
            },
        ),
{
    let raw_caption: &[u8] = caption.as_bytes();
    let caption_len: u16 = if raw_caption.len() <= 0xffff {
        raw_caption.len() as u16
    } else {
        0xffff
    };
    let caption_bytes: &[u8] = slice_subrange(raw_caption, 0, caption_len as usize);
    assert(caption_bytes@ =~= clip(encode_utf8(caption@)));

    let mut payload: Vec<u8> = Vec::new();
    payload.push(PAYLOAD_TYPE_IMAGE);
    payload.push((timestamp_seconds / 0x100_0000) as u8);
    payload.push((timestamp_seconds / 0x1_0000 % 0x100) as u8);
    payload.push((timestamp_seconds / 0x100 % 0x100) as u8);
    payload.push((timestamp_seconds % 0x100) as u8);
    payload.push((caption_len / 0x100) as u8);
    payload.push((caption_len % 0x100) as u8);
    assert(payload@ =~= seq![PAYLOAD_TYPE_IMAGE] + be32(timestamp_seconds) + be16(caption_len));
    payload.extend_from_slice(caption_bytes);
    payload.extend_from_slice(image_bytes);
    assert(payload@ =~= seq![PAYLOAD_TYPE_IMAGE] + be32(timestamp_seconds) + be16(caption_len)
        + caption_bytes@ + image_bytes@);
    payload
}

// ---------------------------------------------------------------------------
// Decoding
// ---------------------------------------------------------------------------

/// The outcome of decoding, over the contents of messages.
pub open spec fn outcome(r: Result<DecodedPayload, PayloadError>) -> Result<Message, Fault> {
    match r {
        Ok(p) => Ok(p@),
        Err(e) => Err(e@),
    }
}

/// Decodes framed bytes by their first, discriminator byte.
///
/// Fails if the frame is empty, if the header or caption of an image is truncated, if a text or
/// caption is not UTF-8, or if the type byte is not recognized.
pub fn decode_payload(bytes: &[u8]) -> (r: Result<DecodedPayload, PayloadError>)
    ensures
        outcome(r) == decoded(bytes@),
{
    broadcast use {decode_utf8_encode_utf8, encode_utf8_decode_utf8};

    let len: usize = bytes.len();
    if len == 0 {
        return Err(PayloadError::EmptyPayload);
    }
    let type_byte: u8 = bytes[0];
    if type_byte == PAYLOAD_TYPE_TEXT {
        let rest: Vec<u8> = slice_to_vec(slice_subrange(bytes, 1, len));
        assert(rest@ =~= bytes@.skip(1));
        match String::from_utf8(rest) {
            Ok(text) => Ok(DecodedPayload::Text { text }),
            Err(e) => Err(PayloadError::from(e)),
        }
    } else if type_byte == PAYLOAD_TYPE_VOICE {
        let rest: Vec<u8> = slice_to_vec(slice_subrange(bytes, 1, len));
        assert(rest@ =~= bytes@.skip(1));
        Ok(DecodedPayload::Voice { audio_bytes: rest })
    } else if type_byte == PAYLOAD_TYPE_IMAGE {
        if len < 7 {
            return Err(PayloadError::ImageHeaderTooShort);
        }
        let timestamp: u32 = bytes[1] as u32 * 0x100_0000 + bytes[2] as u32 * 0x1_0000
            + bytes[3] as u32 * 0x100 + bytes[4] as u32;
        let caption_length: u16 = bytes[5] as u16 * 0x100 + bytes[6] as u16;
        let end: usize = 7 + caption_length as usize;
        if len < end {
            return Err(PayloadError::ImagePayloadTooShort);
        }
        let caption_bytes: Vec<u8> = slice_to_vec(slice_subrange(bytes, 7, end));
        let image_bytes: Vec<u8> = slice_to_vec(slice_subrange(bytes, end, len));
        assert(image_bytes@ =~= bytes@.skip(end as int));
        match String::from_utf8(caption_bytes) {
            Ok(caption) => Ok(DecodedPayload::Image { timestamp, caption, image_bytes }),
            Err(e) => Err(PayloadError::from(e)),
        }
    } else {
        Err(PayloadError::UnrecognizedType(type_byte))
    }
}

// ---------------------------------------------------------------------------
// Laws
// ---------------------------------------------------------------------------

/// Every message whose caption, if it has one, takes at most 65535 bytes is decoded from its frame.
pub proof fn law_decode_undoes_encode(m: Message)
    requires
        m matches Message::Image { caption, .. } ==> encode_utf8(caption).len() <= u16::MAX,
    ensures
        decoded(framed(m)) == Ok::<Message, Fault>(m),
{
    broadcast use {encode_utf8_decode_utf8, encode_utf8_valid_utf8};

    let b = framed(m);
    match m {
        Message::Text { text } => {
            assert(b.skip(1) =~= encode_utf8(text));
        },
        Message::Voice { audio } => {
            assert(b.skip(1) =~= audio);
        },
        Message::Image { timestamp, caption, image } => {
            let cap = encode_utf8(caption);
            let end = 7 + cap.len();
            lemma_be32(timestamp);
            lemma_be16(cap.len() as u16);
            assert(b.skip(1).take(4) =~= be32(timestamp));
            assert(b.skip(5).take(2) =~= be16(cap.len() as u16));
            assert(b.subrange(7, end as int) =~= cap);
            assert(b.skip(end as int) =~= image);
        },
    }
}

/// Bytes that decode at all are the frame of what they decode to: no message has two frames that
/// are both accepted.
pub proof fn law_encode_undoes_decode(bytes: Seq<u8>)
    requires
        decoded(bytes) is Ok,
    ensures
        framed(decoded(bytes)->Ok_0) == bytes,
{
    broadcast use {decode_utf8_encode_utf8};

    match decoded(bytes)->Ok_0 {
        Message::Text { text } => {
            assert(seq![PAYLOAD_TYPE_TEXT] + bytes.skip(1) =~= bytes);
        },
        Message::Voice { audio } => {
            assert(seq![PAYLOAD_TYPE_VOICE] + bytes.skip(1) =~= bytes);
        },
        Message::Image { timestamp, caption, image } => {
            let n = from_be16(bytes.skip(5));
            let end = 7 + n;
            let cap = bytes.subrange(7, end);
            assert(clip(cap) == cap);
            assert(framed(decoded(bytes)->Ok_0) =~= seq![PAYLOAD_TYPE_IMAGE] + be32(timestamp)
                + be16(n) + cap + image);
            lemma_be32_back(bytes.skip(1));
            lemma_be16_back(bytes.skip(5));
            assert(bytes.skip(1).take(4) =~= bytes.subrange(1, 5));
            assert(bytes.skip(5).take(2) =~= bytes.subrange(5, 7));
            assert(seq![PAYLOAD_TYPE_IMAGE] + bytes.subrange(1, 5) + bytes.subrange(5, 7) + cap
                + image =~= bytes);
        },
    }
}

/// An image frame with a caption of more than 65535 bytes decodes to the same timestamp and image
/// and to the caption's first 65535 bytes, or, where the cut splits a character, not at all.
pub proof fn law_long_caption_is_cut(timestamp: u32, caption: Seq<char>, image: Seq<u8>)
    requires
        encode_utf8(caption).len() > u16::MAX,
    ensures
        ({
            let kept = encode_utf8(caption).take(u16::MAX as int);
            decoded(framed(Message::Image { timestamp, caption, image })) == if valid_utf8(kept) {
                Ok::<Message, Fault>(
                    Message::Image { timestamp, caption: decode_utf8(kept), image },
                )
            } else {
                Err(Fault::NotUtf8(kept))
            }
        }),
{
    let b = framed(Message::Image { timestamp, caption, image });
    let kept = encode_utf8(caption).take(u16::MAX as int);
    lemma_be32(timestamp);
    lemma_be16(u16::MAX);
    assert(b.skip(1).take(4) =~= be32(timestamp));
    assert(b.skip(5).take(2) =~= be16(u16::MAX));
    assert(b.subrange(7, 7 + u16::MAX) =~= kept);
    assert(b.skip(7 + u16::MAX) =~= image);
}

proof fn lemma_be32(x: u32)
    ensures
        forall|b: Seq<u8>| #![trigger from_be32(b)] b.take(4) == be32(x) && b.len() >= 4
            ==> from_be32(b) == x,
{
    assert forall|b: Seq<u8>| #![trigger from_be32(b)] b.take(4) == be32(x) && b.len()
        >= 4 implies from_be32(b) == x by {
        assert(b[0] == b.take(4)[0]);
        assert(b[1] == b.take(4)[1]);
        assert(b[2] == b.take(4)[2]);
        assert(b[3] == b.take(4)[3]);
    }
}

proof fn lemma_be16(x: u16)
    ensures
        forall|b: Seq<u8>| #![trigger from_be16(b)] b.take(2) == be16(x) && b.len() >= 2
            ==> from_be16(b) == x,
{
    assert forall|b: Seq<u8>| #![trigger from_be16(b)] b.take(2) == be16(x) && b.len()
        >= 2 implies from_be16(b) == x by {
        assert(b[0] == b.take(2)[0]);
        assert(b[1] == b.take(2)[1]);
    }
}

proof fn lemma_be32_back(b: Seq<u8>)
    requires
        b.len() >= 4,
    ensures
        be32(from_be32(b)) == b.take(4),
{
    let x = from_be32(b);
    assert(x / 0x100_0000 == b[0]);
    assert(x / 0x1_0000 == b[0] * 0x100 + b[1]);
    assert(x / 0x100 == b[0] * 0x1_0000 + b[1] * 0x100 + b[2]);
    assert(be32(x) =~= b.take(4));
}

proof fn lemma_be16_back(b: Seq<u8>)
    requires
        b.len() >= 2,
    ensures
        be16(from_be16(b)) == b.take(2),
{
    assert(be16(from_be16(b)) =~= b.take(2));
}

/// Where things stand in a frame. A text frame is a zero and the text in UTF-8; a voice frame is a one
/// and the audio. An image frame is a two, the timestamp in four bytes and the length of the caption in
/// two bytes, the most significant byte first, then the caption in UTF-8, of which 65535 bytes are kept
/// at most, and then the image.
pub proof fn law_layout_of_frames(m: Message)
    ensures
        match m {
            Message::Text { text } => framed(m)[0] == 0 && framed(m).skip(1) == encode_utf8(text),
            Message::Voice { audio } => framed(m)[0] == 1 && framed(m).skip(1) == audio,
            Message::Image { timestamp, caption, image } => {
                let f = framed(m);
                let bytes = encode_utf8(caption);
                let n = if bytes.len() <= 65535 {
                    bytes.len() as int
                } else {
                    65535
                };
                &&& f.len() == 7 + n + image.len()
                &&& f[0] == 2
                &&& ((f[1] * 256 + f[2]) * 256 + f[3]) * 256 + f[4] == timestamp
                &&& f[5] * 256 + f[6] == n
                &&& f.subrange(7, 7 + n) == bytes.take(n)
                &&& f.skip(7 + n) == image
            },
        },
{
    let f = framed(m);
    match m {
        Message::Text { text } => {
            assert(f.skip(1) =~= encode_utf8(text));
        },
        Message::Voice { audio } => {
            assert(f.skip(1) =~= audio);
        },
        Message::Image { timestamp, caption, image } => {
            let bytes = encode_utf8(caption);
            let cap = clip(bytes);
            let n = cap.len() as int;
            assert(bytes.take(n) =~= cap);
            assert(f.subrange(7, 7 + n) =~= cap);
            assert(f.skip(7 + n) =~= image);
            assert(f.subrange(1, 5) =~= be32(timestamp));
            assert(f.subrange(5, 7) =~= be16(n as u16));
            assert(f[1] == be32(timestamp)[0] && f[2] == be32(timestamp)[1]);
            assert(f[3] == be32(timestamp)[2] && f[4] == be32(timestamp)[3]);
            assert(f[5] == be16(n as u16)[0] && f[6] == be16(n as u16)[1]);
        },
    }
}

/// When a frame is turned down, and as what: nothing at all, an unknown first byte, an image without its
/// header or with less than its caption, and a text or caption that is not UTF-8. Any other frame is
/// accepted.
pub proof fn law_refused_frames(bytes: Seq<u8>)
    ensures
        decoded(bytes) == Err::<Message, Fault>(Fault::Empty) <==> bytes.len() == 0,
        bytes.len() > 0 && bytes[0] > 2 ==> decoded(bytes) == Err::<Message, Fault>(
            Fault::UnknownType(bytes[0]),
        ),
        bytes.len() > 0 && bytes[0] == 0 ==> match decoded(bytes) {
            Ok(m) => m is Text && valid_utf8(bytes.skip(1)),
            Err(e) => e == Fault::NotUtf8(bytes.skip(1)) && !valid_utf8(bytes.skip(1)),
        },
        bytes.len() > 0 && bytes[0] == 1 ==> (decoded(bytes) matches Ok(m) && m is Voice),
        bytes.len() > 0 && bytes[0] == 2 && bytes.len() < 7 ==> decoded(bytes) == Err::<
            Message,
            Fault,
        >(Fault::HeaderTooShort),
        bytes.len() >= 7 && bytes[0] == 2 ==> {
            let end = 7 + bytes[5] * 256 + bytes[6];
            match decoded(bytes) {
                Ok(m) => m is Image && bytes.len() >= end && valid_utf8(bytes.subrange(7, end)),
                Err(Fault::CaptionTruncated) => bytes.len() < end,
                Err(e) => bytes.len() >= end && e == Fault::NotUtf8(bytes.subrange(7, end))
                    && !valid_utf8(bytes.subrange(7, end)),
            }
        },
{
    if bytes.len() >= 7 {
        assert(bytes.skip(5)[0] == bytes[5] && bytes.skip(5)[1] == bytes[6]);
    }
}

/// The functions for one kind of message and the one for all kinds agree, and what they make is what
/// decoding takes apart: a text, a voice message or an image comes out of its frame as it went in.
pub proof fn law_every_kind_is_read_back(
    text: Seq<char>,
    audio: Seq<u8>,
    p: DecodedPayload,
    frame: Seq<u8>,
    r: Result<DecodedPayload, PayloadError>,
)
    requires
        frame == framed(p@),
        outcome(r) == decoded(frame),
        p matches DecodedPayload::Image { caption, .. } ==> encode_utf8(caption@).len() <= 65535,
    ensures
        match (p, r) {
            (DecodedPayload::Text { text: a }, Ok(DecodedPayload::Text { text: b })) => a@ == b@,
            (
                DecodedPayload::Voice { audio_bytes: a },
                Ok(DecodedPayload::Voice { audio_bytes: b }),
            ) => a@ == b@,
            (
                DecodedPayload::Image { timestamp: t, caption: c, image_bytes: i },
                Ok(DecodedPayload::Image { timestamp: u, caption: d, image_bytes: j }),
            ) => t == u && c@ == d@ && i@ == j@,
            _ => false,
        },
        decoded(framed(Message::Text { text })) == Ok::<Message, Fault>(Message::Text { text }),
        decoded(framed(Message::Voice { audio })) == Ok::<Message, Fault>(Message::Voice { audio }),
{
    law_decode_undoes_encode(p@);
    law_decode_undoes_encode(Message::Text { text });
    law_decode_undoes_encode(Message::Voice { audio });
}

/// What is reported about a frame that is turned down, to the letter.
pub proof fn law_errors_of_decoding(bytes: Seq<u8>, r: Result<DecodedPayload, PayloadError>)
    requires
        outcome(r) == decoded(bytes),
    ensures
        bytes.len() == 0 ==> r == Err::<DecodedPayload, PayloadError>(PayloadError::EmptyPayload),
        bytes.len() > 0 && bytes[0] > 2 ==> r == Err::<DecodedPayload, PayloadError>(
            PayloadError::UnrecognizedType(bytes[0]),
        ),
        0 < bytes.len() < 7 && bytes[0] == 2 ==> r == Err::<DecodedPayload, PayloadError>(
            PayloadError::ImageHeaderTooShort,
        ),
        bytes.len() >= 7 && bytes[0] == 2 && bytes.len() < 7 + bytes[5] * 256 + bytes[6] ==> r
            == Err::<DecodedPayload, PayloadError>(PayloadError::ImagePayloadTooShort),
        r matches Err(PayloadError::InvalidUtf8(e)) ==> !valid_utf8(rejected_bytes(e)) && (
        rejected_bytes(e) == bytes.skip(1) || rejected_bytes(e) == bytes.subrange(
            7,
            7 + bytes[5] * 256 + bytes[6],
        )),
{
    law_refused_frames(bytes);
    if bytes.len() >= 7 {
        assert(bytes.skip(5)[0] == bytes[5] && bytes.skip(5)[1] == bytes[6]);
    }
}

/// The messages about frames that are turned down.
pub proof fn law_messages_about_frames(f: Fault)
    ensures
        fault_text(f) == match f {
            Fault::Empty => "Cannot decode empty message payload"@,
            Fault::HeaderTooShort => "Invalid image payload: header too short"@,
            Fault::CaptionTruncated => {
                "Invalid image payload: payload shorter than caption length"@
            },
            Fault::NotUtf8(bytes) => "Invalid UTF-8 sequence: "@ + utf8_complaint(bytes),
            Fault::UnknownType(b) => "Unrecognized message payload type byte: "@ + decimal(
                b as nat,
            ),
        },
{
}

}
