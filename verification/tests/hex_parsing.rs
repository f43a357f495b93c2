use glinscan::hexstr::{encode_hex_prefixed, parse_code_hash, HashParseError};

fn hex64(c: char) -> String {
    std::iter::repeat(c).take(64).collect()
}

#[test]
fn parses_prefixed_64_hex_chars_to_32_bytes() {
    let text = format!("0x{}", hex64('a'));
    let bytes = parse_code_hash(&text).unwrap();
    assert_eq!(bytes.len(), 32);
    assert!(bytes.iter().all(|&b| b == 0xaa));
}

#[test]
fn parses_without_prefix() {
    let bytes = parse_code_hash(&hex64('1')).unwrap();
    assert_eq!(bytes.len(), 32);
    assert!(bytes.iter().all(|&b| b == 0x11));
}

#[test]
fn parses_mixed_case_digits() {
    let mut text = String::from("0x");
    text.push_str(&hex64('0')[..62]);
    text.push_str("Fe");
    let bytes = parse_code_hash(&text).unwrap();
    assert_eq!(bytes[31], 0xfe);
    assert_eq!(bytes[0], 0x00);
}

#[test]
fn exact_byte_values() {
    let mut text = String::from("0x00ff10");
    text.push_str(&hex64('0')[..58]);
    let bytes = parse_code_hash(&text).unwrap();
    assert_eq!(bytes[0], 0x00);
    assert_eq!(bytes[1], 0xff);
    assert_eq!(bytes[2], 0x10);
    assert_eq!(bytes[3], 0x00);
}

#[test]
fn rejects_non_hex_content_as_format_error() {
    assert_eq!(parse_code_hash("0xzz"), Err(HashParseError::InvalidFormat));
    let mut bad = hex64('a');
    bad.replace_range(10..11, "g");
    assert_eq!(parse_code_hash(&bad), Err(HashParseError::InvalidFormat));
}

#[test]
fn rejects_odd_digit_count_as_format_error() {
    let text = format!("0x{}", &hex64('b')[..63]);
    assert_eq!(parse_code_hash(&text), Err(HashParseError::InvalidFormat));
}

#[test]
fn rejects_wrong_length_as_length_error() {
    let text = format!("0x{}", &hex64('b')[..62]);
    assert_eq!(parse_code_hash(&text), Err(HashParseError::InvalidLength));
    assert_eq!(parse_code_hash(""), Err(HashParseError::InvalidLength));
    assert_eq!(parse_code_hash("0x"), Err(HashParseError::InvalidLength));
}

#[test]
fn encodes_bytes_as_prefixed_lower_case_hex() {
    let s = encode_hex_prefixed(&vec![0x00, 0xff, 0x10, 0xab]);
    assert_eq!(s, "0x00ff10ab");
    let empty = encode_hex_prefixed(&vec![]);
    assert_eq!(empty, "0x");
}

#[test]
fn encode_then_parse_round_trips() {
    let bytes: Vec<u8> = (0..32u8).map(|i| i.wrapping_mul(7)).collect();
    let text = encode_hex_prefixed(&bytes);
    assert_eq!(parse_code_hash(&text).unwrap(), bytes);
}
