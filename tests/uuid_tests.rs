use giv::entropy::Entropy;
use giv::uuid::{format_uuid, generate_uuid, UuidFormat, UuidOutput, UuidVersion};

const NOW_MILLIS: u64 = 1_684_146_615_123;

fn generate(version: Option<UuidVersion>, format: Option<UuidFormat>, uppercase: bool) -> Result<UuidOutput, giv::GivError> {
    let mut e = Entropy::from_os().unwrap();
    generate_uuid(&mut e, NOW_MILLIS, version, format, uppercase)
}
use uuid::Uuid;

#[test]
fn test_default_format() {
    assert_eq!(UuidFormat::default(), UuidFormat::Standard);
}

#[test]
fn test_format_variants() {
    let variants = [
        UuidFormat::Standard,
        UuidFormat::Simple,
        UuidFormat::Braced,
        UuidFormat::URN,
        UuidFormat::Hex,
    ];
    for (i, v1) in variants.iter().enumerate() {
        for (j, v2) in variants.iter().enumerate() {
            if i == j {
                assert_eq!(v1, v2);
            } else {
                assert_ne!(v1, v2);
            }
        }
    }
}

#[test]
fn format_test_as_str() {
    assert_eq!(UuidFormat::Standard.as_str(), "standard");
    assert_eq!(UuidFormat::Simple.as_str(), "simple");
    assert_eq!(UuidFormat::Braced.as_str(), "braced");
    assert_eq!(UuidFormat::URN.as_str(), "urn");
    assert_eq!(UuidFormat::Hex.as_str(), "hex");
}

#[test]
fn test_default_version() {
    assert_eq!(UuidVersion::default(), UuidVersion::V7);
}

#[test]
fn test_version_variants() {
    let variants = [UuidVersion::V4, UuidVersion::V7];
    assert_eq!(variants[0], UuidVersion::V4);
    assert_ne!(variants[0], variants[1]);
}

#[test]
fn version_test_as_str() {
    assert_eq!(UuidVersion::V4.as_str(), "v4");
    assert_eq!(UuidVersion::V7.as_str(), "v7");
}

#[test]
fn test_generate_uuid_default() {
    let output = generate(None, None, false).unwrap();
    assert_eq!(output.uuid.len(), 36);
    assert_eq!(output.uuid.chars().nth(8).unwrap(), '-');
    assert_eq!(output.uuid.chars().nth(13).unwrap(), '-');
    assert_eq!(output.uuid.chars().nth(18).unwrap(), '-');
    assert_eq!(output.uuid.chars().nth(23).unwrap(), '-');
    assert_eq!(output.version, "v7");
    assert_eq!(output.format, "standard");
    assert!(!output.uppercase);
}

#[test]
fn test_generate_uuid_v4() {
    let output = generate(Some(UuidVersion::V4), None, false).unwrap();
    assert_eq!(output.version, "v4");
    assert_eq!(output.uuid.len(), 36);
}

#[test]
fn test_uuid_uniqueness() {
    let uuid1 = generate(None, None, false).unwrap();
    let uuid2 = generate(None, None, false).unwrap();
    assert_ne!(uuid1.uuid, uuid2.uuid);
}

#[test]
fn test_uuid_simple_format() {
    let output = generate(None, Some(UuidFormat::Simple), false).unwrap();
    assert_eq!(output.uuid.len(), 32);
    assert!(!output.uuid.contains('-'));
    assert_eq!(output.format, "simple");
}

#[test]
fn test_uuid_braced_format() {
    let output = generate(None, Some(UuidFormat::Braced), false).unwrap();
    assert_eq!(output.uuid.len(), 38);
    assert!(output.uuid.starts_with('{'));
    assert!(output.uuid.ends_with('}'));
    assert_eq!(output.format, "braced");
}

#[test]
fn test_uuid_urn_format() {
    let output = generate(None, Some(UuidFormat::URN), false).unwrap();
    assert!(output.uuid.starts_with("urn:uuid:"));
    assert_eq!(output.format, "urn");
}

#[test]
fn test_uuid_hex_format() {
    let output = generate(None, Some(UuidFormat::Hex), false).unwrap();
    assert!(output.uuid.starts_with("0x"));
    assert_eq!(output.uuid.len(), 34);
    assert_eq!(output.format, "hex");
}

#[test]
fn test_uuid_uppercase() {
    let output = generate(None, None, true).unwrap();
    assert!(output.uppercase);
    assert!(output.uuid.chars().any(|c| c.is_ascii_uppercase()));
}

#[test]
fn test_uuid_format_parseable() {
    let output = generate(None, Some(UuidFormat::Standard), false).unwrap();
    let parsed = Uuid::parse_str(&output.uuid);
    assert!(parsed.is_ok());
}

#[test]
fn test_uuid_combined_options() {
    let output = generate(Some(UuidVersion::V4), Some(UuidFormat::Simple), true).unwrap();
    assert_eq!(output.version, "v4");
    assert_eq!(output.format, "simple");
    assert!(output.uppercase);
    assert_eq!(output.uuid.len(), 32);
    assert!(!output.uuid.contains('-'));
}

#[test]
fn fixed_value_in_every_layout() {
    let v: u128 = 0x0123_4567_89ab_7def_0123_4567_89ab_cdef;
    assert_eq!(format_uuid(v, UuidFormat::Standard, false), "01234567-89ab-7def-0123-456789abcdef");
    assert_eq!(format_uuid(v, UuidFormat::Simple, false), "0123456789ab7def0123456789abcdef");
    assert_eq!(format_uuid(v, UuidFormat::Braced, false), "{01234567-89ab-7def-0123-456789abcdef}");
    assert_eq!(format_uuid(v, UuidFormat::URN, false), "urn:uuid:01234567-89ab-7def-0123-456789abcdef");
    assert_eq!(format_uuid(v, UuidFormat::Hex, false), "0x0123456789ab7def0123456789abcdef");
    assert_eq!(format_uuid(v, UuidFormat::URN, true), "URN:UUID:01234567-89AB-7DEF-0123-456789ABCDEF");
    assert_eq!(format_uuid(v, UuidFormat::Hex, true), "0X0123456789AB7DEF0123456789ABCDEF");
}

#[test]
fn uuid_versions_and_timestamp_bits() {
    let v7 = generate(None, Some(UuidFormat::Simple), false).unwrap();
    let value = u128::from_str_radix(&v7.uuid, 16).unwrap();
    assert_eq!((value >> 76) & 0xf, 7);
    assert_eq!((value >> 80) as u64, NOW_MILLIS);
    let mut e = Entropy::from_words(vec![0]);
    let v4 = generate_uuid(&mut e, 0, Some(UuidVersion::V4), Some(UuidFormat::Standard), false).unwrap();
    assert_eq!(v4.uuid, "00000000-0000-4000-8000-000000000000");
}
