use giv::entropy::Entropy;
use giv::key::{get_key, key_command};

const KEY_ALPHABET: &str = "ABCDEFGHIJKLMNOPQRSTUVWXYZabcdefghijklmnopqrstuvwxyz0123456789";

#[test]
fn test_get_key() {
    let sizes = [0, 1, 10, 36, 100, 1000];
    let mut entropy = Entropy::from_os().unwrap();
    for size in sizes {
        let key = get_key(&mut entropy, size).unwrap();
        assert_eq!(key.len(), size);
        assert!(key.chars().all(|ch| KEY_ALPHABET.contains(ch)));
    }
}

#[test]
fn key_skips_biased_bytes() {
    // Bytes 0xff (skipped), 0x00 -> 'A', 0x3e (62) -> 'A', 0x3d (61) -> '9', 0xf8 (skipped).
    let word: u64 = 0x0000_00f8_3d3e_00ff;
    let mut e = Entropy::from_words(vec![word]);
    let key = get_key(&mut e, 3).unwrap();
    assert_eq!(key, "AA9");
    // The remaining bytes of the word are zeros: 'A' each, after the first three.
    let mut e = Entropy::from_words(vec![word]);
    assert_eq!(get_key(&mut e, 5).unwrap(), "AA9AA");
}

#[test]
fn key_command_has_prefix() {
    let mut e = Entropy::from_seed(3);
    let out = key_command(&mut e, None).unwrap();
    assert!(out.key.starts_with("key_"));
    assert_eq!(out.key.len(), 4 + 36);
    let out = key_command(&mut e, Some(0)).unwrap();
    assert_eq!(out.key, "key_");
}
