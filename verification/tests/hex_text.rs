//! Tests for the hexadecimal text helpers.

use evmhost::hexutil::{parse_bytes, remove_0x};
use evmhost::types::{Address, Bytes32, JsonBytes};

#[test]
fn to_hex_renders_lowercase_pairs() {
    let j = JsonBytes(vec![0xab, 0x00, 0xff, 0x07]);
    assert_eq!(j.to_hex(), b"ab00ff07".to_vec());
    assert_eq!(JsonBytes(vec![]).to_hex(), Vec::<u8>::new());
}

#[test]
fn fixed_width_values_render_as_hex() {
    let mut bytes = [0u8; 20];
    bytes[0] = 0xde;
    bytes[19] = 0x01;
    let mut expected = b"de".to_vec();
    expected.extend(std::iter::repeat(b'0').take(36));
    expected.push(b'0');
    expected.push(b'1');
    assert_eq!(Address(bytes).to_hex(), expected);
    assert_eq!(Bytes32([0x0f; 32]).to_hex(), b"0f".repeat(32));
}

#[test]
fn parse_bytes_decodes_both_cases() {
    assert_eq!(parse_bytes(b"ab00ff07").unwrap(), JsonBytes(vec![0xab, 0x00, 0xff, 0x07]));
    assert_eq!(parse_bytes(b"AB00FF07").unwrap(), JsonBytes(vec![0xab, 0x00, 0xff, 0x07]));
    assert_eq!(parse_bytes(b"").unwrap(), JsonBytes(vec![]));
}

#[test]
fn parse_bytes_rejects_bad_text() {
    assert!(parse_bytes(b"abc").is_err());
    assert!(parse_bytes(b"zz").is_err());
    assert!(parse_bytes(b"0x12").is_err());
}

#[test]
fn hex_round_trip() {
    let j = JsonBytes((0u8..=255).collect());
    let text = j.to_hex();
    assert_eq!(parse_bytes(&text).unwrap(), j);
}

#[test]
fn remove_0x_strips_markers() {
    assert_eq!(remove_0x("0xab12"), "ab12");
    assert_eq!(remove_0x("0Xab12"), "ab12");
    assert_eq!(remove_0x("ab12"), "ab12");
    assert_eq!(remove_0x("0x"), "");
    assert_eq!(remove_0x("0"), "0");
    assert_eq!(remove_0x(""), "");
    assert_eq!(remove_0x("x0ab"), "x0ab");
}
