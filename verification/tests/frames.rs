use deezchatz_sdk::text::{decimal_string, parse_unsigned, split_string};
use deezchatz_sdk::{
    decode_payload, encode_image_payload, encode_text_payload, DecodedPayload, PayloadError,
};

#[test]
fn exact_bytes_of_an_image() {
    assert_eq!(
        encode_image_payload(0x01020304, "hi", &[0xff, 0xd8]),
        vec![2, 1, 2, 3, 4, 0, 2, b'h', b'i', 0xff, 0xd8]
    );
}

#[test]
fn frames_have_one_form() {
    let bytes = vec![2, 1, 2, 3, 4, 0, 2, b'h', b'i', 0xff, 0xd8];
    assert_eq!(decode_payload(&bytes).unwrap().encode(), bytes);
    assert_eq!(decode_payload(&[0]).unwrap(), DecodedPayload::Text { text: String::new() });
    assert_eq!(decode_payload(&[1]).unwrap(), DecodedPayload::Voice { audio_bytes: vec![] });
}

#[test]
fn long_captions_are_cut() {
    let caption = "a".repeat(70000);
    match decode_payload(&encode_image_payload(7, &caption, &[1, 2, 3])).unwrap() {
        DecodedPayload::Image { timestamp, caption, image_bytes } => {
            assert_eq!(timestamp, 7);
            assert_eq!(caption, "a".repeat(65535));
            assert_eq!(image_bytes, vec![1, 2, 3]);
        }
        other => panic!("{:?}", other),
    }
    // The cut goes through the last character.
    let caption = "é".repeat(40000);
    let err = decode_payload(&encode_image_payload(7, &caption, &[])).unwrap_err();
    assert!(matches!(err, PayloadError::InvalidUtf8(_)));
    // A caption of the largest length stays whole.
    let caption = "b".repeat(65535);
    match decode_payload(&encode_image_payload(7, &caption, &[])).unwrap() {
        DecodedPayload::Image { caption: c, .. } => assert_eq!(c, caption),
        other => panic!("{:?}", other),
    }
}

#[test]
fn text_that_is_not_utf8() {
    let err = decode_payload(&[0, b'a', 0xff]).unwrap_err();
    let expected = String::from_utf8(vec![b'a', 0xff]).unwrap_err();
    assert_eq!(err, PayloadError::InvalidUtf8(expected));
    assert_eq!(
        err.to_string(),
        "Invalid UTF-8 sequence: invalid utf-8 sequence of 1 bytes from index 1"
    );
    let err = decode_payload(&[2, 0, 0, 0, 0, 0, 1, 0xff]).unwrap_err();
    assert!(matches!(err, PayloadError::InvalidUtf8(_)));
}

#[test]
fn texts_survive_framing() {
    for text in ["", "plain", "grüße 🌅", "\u{0}\u{10ffff}"] {
        assert_eq!(
            decode_payload(&encode_text_payload(text)).unwrap(),
            DecodedPayload::Text { text: text.to_string() }
        );
    }
}

#[test]
fn numbers_in_texts() {
    assert_eq!(decimal_string(0), "0");
    assert_eq!(decimal_string(1726030464), "1726030464");
    assert_eq!(decimal_string(u64::MAX), u64::MAX.to_string());
    assert_eq!(parse_unsigned("0042", 100), Some(42));
    assert_eq!(parse_unsigned("101", 100), None);
    assert_eq!(parse_unsigned("4294967295", u32::MAX), Some(u32::MAX));
    assert_eq!(parse_unsigned("99999999999999999999999", u32::MAX), None);
}

#[test]
fn pieces_of_texts() {
    for s in ["", "a", "/", "/a//b/", "é/ü"] {
        let expected: Vec<String> = s.split('/').map(|p| p.to_string()).collect();
        assert_eq!(split_string(s, '/'), expected);
    }
}
