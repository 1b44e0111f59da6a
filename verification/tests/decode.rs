use oneshot_listener::text::{decode_text, received_text};

#[test]
fn hello_bytes_decode_to_hello() {
    let bytes = b"hello".to_vec();
    let decoded = decode_text(&bytes).unwrap();
    assert_eq!(decoded.as_str(), "hello");
    assert_eq!(received_text(&bytes).as_str(), "hello");
}

#[test]
fn zero_bytes_decode_to_empty_text() {
    let bytes: Vec<u8> = Vec::new();
    assert_eq!(decode_text(&bytes).unwrap().as_str(), "");
    assert_eq!(received_text(&bytes).as_str(), "");
}

#[test]
fn invalid_bytes_yield_empty_text() {
    let bytes = vec![0xFFu8, 0xFEu8];
    assert_eq!(decode_text(&bytes), None);
    assert_eq!(received_text(&bytes).as_str(), "");
}

#[test]
fn multibyte_text_decodes_exactly() {
    let bytes = "κόσμε".as_bytes().to_vec();
    assert_eq!(received_text(&bytes).as_str(), "κόσμε");
    let bytes = "naïve — héllo".as_bytes().to_vec();
    assert_eq!(received_text(&bytes).as_str(), "naïve — héllo");
    let bytes = "𝄞 music".as_bytes().to_vec();
    assert_eq!(received_text(&bytes).as_str(), "𝄞 music");
}

#[test]
fn smallest_two_byte_scalar_decodes() {
    let bytes = vec![0xC2u8, 0x80u8];
    assert_eq!(received_text(&bytes).as_str(), "\u{80}");
}

#[test]
fn largest_scalar_decodes() {
    let bytes = vec![0xF4u8, 0x8Fu8, 0xBFu8, 0xBFu8];
    assert_eq!(received_text(&bytes).as_str(), "\u{10FFFF}");
}

#[test]
fn overlong_encoding_is_rejected() {
    // 0xC0 0x80 would decode to zero, which has a one-byte encoding.
    assert_eq!(decode_text(&vec![0xC0u8, 0x80u8]), None);
    // 0xE0 0x80 0x80: a three-byte encoding of a value below 0x800.
    assert_eq!(decode_text(&vec![0xE0u8, 0x80u8, 0x80u8]), None);
    // 0xF0 0x80 0x80 0x80: a four-byte encoding of a value below 0x10000.
    assert_eq!(decode_text(&vec![0xF0u8, 0x80u8, 0x80u8, 0x80u8]), None);
}

#[test]
fn surrogate_range_is_rejected() {
    // 0xED 0xA0 0x80 encodes 0xD800, the first surrogate.
    assert_eq!(decode_text(&vec![0xEDu8, 0xA0u8, 0x80u8]), None);
}

#[test]
fn beyond_last_scalar_is_rejected() {
    // 0xF4 0x90 0x80 0x80 encodes 0x110000, past the last Unicode scalar.
    assert_eq!(decode_text(&vec![0xF4u8, 0x90u8, 0x80u8, 0x80u8]), None);
}

#[test]
fn truncated_encodings_are_rejected() {
    assert_eq!(decode_text(&vec![0xC2u8]), None);
    assert_eq!(decode_text(&vec![0xE2u8, 0x82u8]), None);
    assert_eq!(decode_text(&vec![0xF0u8, 0x9Du8, 0x84u8]), None);
}

#[test]
fn lone_continuation_and_high_lead_bytes_are_rejected() {
    assert_eq!(decode_text(&vec![0x80u8]), None);
    assert_eq!(decode_text(&vec![0xF8u8, 0x80u8, 0x80u8, 0x80u8, 0x80u8]), None);
}

#[test]
fn decoding_agrees_with_std() {
    let samples: Vec<Vec<u8>> = vec![
        b"hello".to_vec(),
        Vec::new(),
        vec![0xFFu8],
        vec![0xC2u8, 0xA9u8],
        vec![0xEDu8, 0x9Fu8, 0xBFu8],
        vec![0xEDu8, 0xA0u8, 0x80u8],
        vec![0xC0u8, 0xAFu8],
        "πλάσμα".as_bytes().to_vec(),
        vec![0x61u8, 0xF4u8, 0x8Fu8, 0xBFu8, 0xBFu8, 0x62u8],
        vec![0x61u8, 0xF4u8, 0x90u8, 0x80u8, 0x80u8, 0x62u8],
    ];
    for bytes in samples {
        let ours = decode_text(&bytes);
        let std_view = std::str::from_utf8(&bytes).ok();
        assert_eq!(ours.as_deref(), std_view);
    }
}
