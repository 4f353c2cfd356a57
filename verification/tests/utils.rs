use codecrafters_bittorrent::utils::decimal::{parse_decimal, u64_to_decimal};
use codecrafters_bittorrent::utils::hex::{from_hex, to_hex};
use codecrafters_bittorrent::utils::{compute_sha1_hash, RawBytesExt, RawStringExt};

#[test]
fn sha1_of_known_inputs() {
    assert_eq!(
        hex::encode(compute_sha1_hash(b"")),
        "da39a3ee5e6b4b0d3255bfef95601890afd80709"
    );
    assert_eq!(
        hex::encode(compute_sha1_hash(b"abc")),
        "a9993e364706816aba3e25717850c26c9cd0d89d"
    );
    assert_eq!(compute_sha1_hash(b"abc").len(), 20);
    assert_ne!(compute_sha1_hash(b"abc"), b"abc".to_vec());
}

#[test]
fn raw_text_holds_one_character_per_byte() {
    let bytes: Vec<u8> = (0..=255).collect();
    let text = bytes.to_raw_string();
    assert_eq!(text.chars().count(), 256);
    assert_eq!(text.chars().nth(0xE9), Some('é'));
    assert_eq!(text.to_raw_bytes(), bytes);
    assert_eq!("héllo".to_raw_bytes(), vec![b'h', 0xE9, b'l', b'l', b'o']);
    assert_eq!("\u{20AC}".to_raw_bytes(), vec![0xAC]);
    assert_eq!(b"hello"[..].to_raw_string(), "hello");
}

#[test]
fn numbers_are_written_and_read_in_decimal() {
    assert_eq!(u64_to_decimal(0), b"0".to_vec());
    assert_eq!(u64_to_decimal(7), b"7".to_vec());
    assert_eq!(u64_to_decimal(10), b"10".to_vec());
    assert_eq!(u64_to_decimal(92063), b"92063".to_vec());
    assert_eq!(u64_to_decimal(u64::MAX), b"18446744073709551615".to_vec());
    assert_eq!(parse_decimal(b"92063", 0, 5, u64::MAX), Some(92063));
    assert_eq!(parse_decimal(b"x007y", 1, 4, 7), Some(7));
    assert_eq!(parse_decimal(b"8", 0, 1, 7), None);
    assert_eq!(parse_decimal(b"", 0, 0, 7), None);
    assert_eq!(parse_decimal(b"1a", 0, 2, 100), None);
    assert_eq!(parse_decimal(b"18446744073709551615", 0, 20, u64::MAX), Some(u64::MAX));
    assert_eq!(parse_decimal(b"18446744073709551616", 0, 20, u64::MAX), None);
    assert_eq!(parse_decimal(b"99999999999999999999999", 0, 23, u64::MAX), None);
}

#[test]
fn bytes_are_written_and_read_in_hexadecimal() {
    assert_eq!(to_hex(&[0x00, 0x0f, 0xa0, 0xff]), "000fa0ff");
    assert_eq!(to_hex(&[]), "");
    assert_eq!(from_hex("000fA0Ff"), Some(vec![0x00, 0x0f, 0xa0, 0xff]));
    assert_eq!(from_hex(""), Some(vec![]));
    assert_eq!(from_hex("abc"), None);
    assert_eq!(from_hex("zz"), None);
    assert_eq!(from_hex("é1"), None);
}
