use base64::Engine;
use giv::bytes::{bytes_command, format_number_with_underscores, BytesEncoding, BytesOutput};
use giv::entropy::Entropy;
use giv::output::Output;
use giv::GivError;

#[test]
fn test_default_encoding() {
    assert_eq!(BytesEncoding::default(), BytesEncoding::Base64);
}

#[test]
fn test_encoding_variants() {
    let variants = [
        BytesEncoding::Hex,
        BytesEncoding::Base64,
        BytesEncoding::Raw,
        BytesEncoding::Rust,
        BytesEncoding::JavaScript,
        BytesEncoding::TypeScript,
    ];
    for (i, v1) in variants.iter().enumerate() {
        for (j, v2) in variants.iter().enumerate() {
            if i == j {
                assert_eq!(v1, v2);
            } else {
                assert_ne!(v1, v2);
            }
        }
    }
}

#[test]
fn test_hex_encoding() {
    let raw_bytes = vec![0x01, 0x23, 0x45, 0x67, 0x89, 0xab, 0xcd, 0xef];
    let output = BytesOutput::new(&raw_bytes, BytesEncoding::Hex, false);
    assert_eq!(output.bytes, "0123456789abcdef");
    assert_eq!(output.encoding, BytesEncoding::Hex);
    assert_eq!(output.length, 8);
    assert!(output.padding.is_none());
}

#[test]
fn test_base64_with_padding() {
    let raw_bytes = vec![0x48, 0x65, 0x6c, 0x6c, 0x6f];
    let output = BytesOutput::new(&raw_bytes, BytesEncoding::Base64, true);
    assert_eq!(output.bytes, "SGVsbG8=");
    assert_eq!(output.encoding, BytesEncoding::Base64);
    assert_eq!(output.length, 5);
    assert_eq!(output.padding, Some(true));
}

#[test]
fn test_base64_without_padding() {
    let raw_bytes = vec![0x48, 0x65, 0x6c, 0x6c, 0x6f];
    let output = BytesOutput::new(&raw_bytes, BytesEncoding::Base64, false);
    assert_eq!(output.bytes, "SGVsbG8");
    assert_eq!(output.encoding, BytesEncoding::Base64);
    assert_eq!(output.padding, Some(false));
}

#[test]
fn test_rust_array_formatting() {
    let raw_bytes = vec![0x01, 0x02, 0x03];
    let output = BytesOutput::new(&raw_bytes, BytesEncoding::Rust, false);
    assert_eq!(output.bytes, "[u8; 3] = [0x01, 0x02, 0x03]");
    assert!(output.padding.is_none());
}

#[test]
fn test_javascript_array_formatting() {
    let raw_bytes = vec![0xaa, 0xbb, 0xcc];
    let output = BytesOutput::new(&raw_bytes, BytesEncoding::JavaScript, false);
    assert_eq!(output.bytes, "[0xaa, 0xbb, 0xcc]");
}

#[test]
fn test_typescript_array_formatting() {
    let raw_bytes = vec![0x11, 0x22];
    let output = BytesOutput::new(&raw_bytes, BytesEncoding::TypeScript, false);
    assert_eq!(output.bytes, "number[] = [0x11, 0x22]");
}

#[test]
fn test_format_number_with_underscores() {
    assert_eq!(format_number_with_underscores(123), "123");
    assert_eq!(format_number_with_underscores(1234), "1_234");
    assert_eq!(format_number_with_underscores(1234567), "1_234_567");
    assert_eq!(format_number_with_underscores(1000000), "1_000_000");
}

#[test]
fn rust_array_length_uses_underscores() {
    let raw = vec![0u8; 1234];
    let output = BytesOutput::new(&raw, BytesEncoding::Rust, false);
    assert!(output.bytes.starts_with("[u8; 1_234] = [0x00, 0x00"));
}

#[test]
fn raw_encoding_is_lossy_utf8() {
    let output = BytesOutput::new(&[0x48, 0x69, 0xff], BytesEncoding::Raw, false);
    assert_eq!(output.bytes, "Hi\u{FFFD}");
    assert!(output.padding.is_none());
}

#[test]
fn empty_bytes_in_every_encoding() {
    assert_eq!(BytesOutput::new(&[], BytesEncoding::Hex, false).bytes, "");
    assert_eq!(BytesOutput::new(&[], BytesEncoding::Base64, true).bytes, "");
    assert_eq!(BytesOutput::new(&[], BytesEncoding::JavaScript, false).bytes, "[]");
    assert_eq!(BytesOutput::new(&[], BytesEncoding::Rust, false).bytes, "[u8; 0] = []");
}

#[test]
fn forced_bytes_hex_and_base64() {
    let word: u64 = 0x0000_006f_6c6c_6548;
    let mut e = Entropy::from_words(vec![word]);
    let out = bytes_command(&mut e, Some(5), Some(BytesEncoding::Hex), false, false).unwrap();
    assert_eq!(out.bytes, "48656c6c6f");
    let mut e = Entropy::from_words(vec![word]);
    let out = bytes_command(&mut e, Some(5), Some(BytesEncoding::Base64), true, false).unwrap();
    assert_eq!(out.bytes, "SGVsbG8=");
    assert_eq!(out.padding, Some(true));
}

#[test]
fn raw_bytes_refused_for_json() {
    let mut e = Entropy::from_seed(1);
    let err = bytes_command(&mut e, None, Some(BytesEncoding::Raw), false, true).unwrap_err();
    assert_eq!(err, GivError::RawBytesNotSupportedInJson);
    let mut e = Entropy::from_seed(1);
    let out = bytes_command(&mut e, None, None, false, false).unwrap();
    assert_eq!(out.length, 32);
    assert_eq!(out.encoding, BytesEncoding::Base64);
}

#[test]
fn hex_and_base64_round_trip() {
    let mut e = Entropy::from_seed(7);
    for len in 0..40usize {
        let raw = e.fill_bytes(len);
        let hex = BytesOutput::new(&raw, BytesEncoding::Hex, false).bytes;
        assert_eq!(hex.len(), 2 * len);
        assert!(hex.chars().all(|c| c.is_ascii_digit() || ('a'..='f').contains(&c)));
        let padded = BytesOutput::new(&raw, BytesEncoding::Base64, true).bytes;
        assert_eq!(base64::engine::general_purpose::STANDARD.decode(&padded).unwrap(), raw);
        let unpadded = BytesOutput::new(&raw, BytesEncoding::Base64, false).bytes;
        assert!(!unpadded.contains('='));
        assert_eq!(
            base64::engine::general_purpose::STANDARD_NO_PAD.decode(&unpadded).unwrap(),
            raw
        );
    }
}

#[test]
fn bytes_plain_output() {
    let output = BytesOutput::new(&[0x01, 0x02, 0x03], BytesEncoding::Hex, false);
    assert_eq!(output.to_plain(), "010203");
}
