use hex::BytesToHexChars;
use hex::FromHex;
use hex::FromHexError;
use hex::ToHex;

#[test]
fn test_from_hex_okay_str() {
    assert_eq!(Vec::from_hex("666f6f626172".as_bytes()).unwrap(), b"foobar");
    assert_eq!(Vec::from_hex("666F6F626172".as_bytes()).unwrap(), b"foobar");
}

#[test]
fn test_from_hex_okay_bytes() {
    assert_eq!(Vec::from_hex(b"666f6f626172").unwrap(), b"foobar");
    assert_eq!(Vec::from_hex(b"666F6F626172").unwrap(), b"foobar");
}

#[test]
fn test_invalid_length() {
    assert_eq!(
        Vec::from_hex("1".as_bytes()).unwrap_err(),
        FromHexError::OddLength
    );
    assert_eq!(
        Vec::from_hex("666f6f6261721".as_bytes()).unwrap_err(),
        FromHexError::OddLength
    );
}

#[test]
fn test_invalid_char() {
    assert_eq!(
        Vec::from_hex("66ag".as_bytes()).unwrap_err(),
        FromHexError::InvalidHexCharacter { c: 'g', index: 3 }
    );
}

#[test]
fn test_empty() {
    assert_eq!(Vec::from_hex("".as_bytes()).unwrap(), b"");
}

#[test]
fn test_from_hex_whitespace() {
    assert_eq!(
        Vec::from_hex("666f 6f62617".as_bytes()).unwrap_err(),
        FromHexError::InvalidHexCharacter { c: ' ', index: 4 }
    );
}

#[test]
fn test_from_hex_array() {
    assert_eq!(
        <[u8; 6] as FromHex>::from_hex("666f6f626172".as_bytes()),
        Ok([0x66, 0x6f, 0x6f, 0x62, 0x61, 0x72])
    );

    assert_eq!(
        <[u8; 5] as FromHex>::from_hex("666f6f626172".as_bytes()),
        Err(FromHexError::InvalidStringLength)
    );
}

#[test]
fn test_to_hex() {
    let bytes: [u8; 6] = [0x66, 0x6f, 0x6f, 0x62, 0x61, 0x72];
    assert_eq!(bytes.encode_hex(), "666f6f626172");
    assert_eq!(bytes.encode_hex_upper(), "666F6F626172");
}

#[test]
fn test_unsized_to_hex() {
    let s: &str = "Hello, world!";
    assert_eq!(s.encode_hex(), "48656c6c6f2c20776f726c6421".to_string());
}

#[test]
fn test_vec_to_hex() {
    let bytes: Vec<u8> = vec![0xf9, 0xb4, 0xca];
    assert_eq!(bytes.encode_hex(), "f9b4ca");
    assert_eq!(bytes.encode_hex_upper(), "F9B4CA");
}

#[test]
fn test_string_to_hex() {
    let s = String::from("foobar");
    assert_eq!(s.encode_hex(), "666f6f626172");
}

#[test]
fn test_bytes_to_hex_chars() {
    let bytes: [u8; 2] = [0x0f, 0xa0];
    let mut chars = BytesToHexChars::new(&bytes, false);
    assert_eq!(chars.len(), 4);
    assert_eq!(chars.next(), Some('0'));
    assert_eq!(chars.next(), Some('f'));
    assert_eq!(chars.len(), 2);
    assert_eq!(chars.next(), Some('a'));
    assert_eq!(chars.next(), Some('0'));
    assert_eq!(chars.len(), 0);
    assert_eq!(chars.next(), None);

    let mut upper = BytesToHexChars::new(&bytes, true);
    assert_eq!(upper.next(), Some('0'));
    assert_eq!(upper.next(), Some('F'));
    assert_eq!(upper.next(), Some('A'));
    assert_eq!(upper.next(), Some('0'));
    assert_eq!(upper.next(), None);
}
