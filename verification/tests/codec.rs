use hex::decode;
use hex::decode_in_slice;
use hex::decode_to_slice;
use hex::encode;
use hex::encode_to_slice;
use hex::byte2hex;
use hex::encode_upper;
use hex::FromHexError;

#[test]
fn test_byte2hex() {
    assert_eq!(byte2hex(0xAB, false), (b'a', b'b'));
    assert_eq!(byte2hex(0xAB, true), (b'A', b'B'));
    assert_eq!(byte2hex(0x09, false), (b'0', b'9'));
}

#[test]
fn test_encode_to_slice() {
    let mut output_1 = [0; 4 * 2];
    encode_to_slice(b"kiwi", &mut output_1).unwrap();
    assert_eq!(&output_1, b"6b697769");

    let mut output_2 = [0; 5 * 2];
    encode_to_slice(b"kiwis", &mut output_2).unwrap();
    assert_eq!(&output_2, b"6b69776973");

    let mut output_3 = [0; 100];

    assert_eq!(
        encode_to_slice(b"kiwis", &mut output_3),
        Err(FromHexError::InvalidStringLength)
    );
}

#[test]
fn test_decode_to_slice() {
    let mut output_1 = [0; 4];
    decode_to_slice(b"6b697769", &mut output_1).unwrap();
    assert_eq!(&output_1, b"kiwi");

    let mut output_2 = [0; 5];
    decode_to_slice(b"6b69776973", &mut output_2).unwrap();
    assert_eq!(&output_2, b"kiwis");

    let mut output_3 = [0; 4];

    assert_eq!(
        decode_to_slice(b"6", &mut output_3),
        Err(FromHexError::OddLength)
    );
}

#[test]
fn test_encode() {
    assert_eq!(encode(b"foobar"), "666f6f626172");
}

#[test]
fn test_decode() {
    assert_eq!(
        decode(b"666f6f626172"),
        Ok(String::from("foobar").into_bytes())
    );
}

#[test]
fn test_encode_upper() {
    assert_eq!(encode_upper(b"foobar"), "666F6F626172");
}

#[test]
fn test_decode_invalid_char() {
    assert_eq!(
        decode(b"66ag"),
        Err(FromHexError::InvalidHexCharacter { c: 'g', index: 3 })
    );
}

#[test]
fn test_round_trip() {
    let inputs: [&[u8]; 4] = [b"", b"\x00", b"kiwi", b"\x00\x0f\x10\x7f\x80\xff"];
    for input in inputs {
        assert_eq!(decode(encode(input).as_bytes()).unwrap(), input);
        assert_eq!(decode(encode_upper(input).as_bytes()).unwrap(), input);
    }
}

#[test]
fn test_decode_case_mixing() {
    assert_eq!(decode(b"aB").unwrap(), vec![0xAB]);
    assert_eq!(decode(b"aB"), decode(b"AB"));
    assert_eq!(decode(b"aB"), decode(b"ab"));
    assert_eq!(decode(b"aB"), decode(b"Ab"));
}

#[test]
fn test_encode_to_slice_strict_length() {
    let mut too_large = [0u8; 9];
    assert_eq!(
        encode_to_slice(b"kiwi", &mut too_large),
        Err(FromHexError::InvalidStringLength)
    );

    let mut exact = [0u8; 8];
    encode_to_slice(b"kiwi", &mut exact).unwrap();
    assert_eq!(&exact, b"6b697769");
}

#[test]
fn test_decode_in_slice() {
    let mut bytes: [u8; 8] = *b"6b697769";
    assert_eq!(decode_in_slice(&mut bytes), Ok(()));
    assert_eq!(&bytes[0..4], b"kiwi");
}

#[test]
fn test_decode_in_slice_odd_length() {
    let mut bytes: [u8; 3] = *b"6b6";
    assert_eq!(decode_in_slice(&mut bytes), Err(FromHexError::OddLength));
    assert_eq!(&bytes, b"6b6");
}

#[test]
fn test_decode_in_slice_invalid_char() {
    let mut bytes: [u8; 4] = *b"6b6x";
    assert_eq!(
        decode_in_slice(&mut bytes),
        Err(FromHexError::InvalidHexCharacter { c: 'x', index: 3 })
    );
    assert_eq!(bytes[0], 0x6b);
}

#[test]
fn test_decode_to_slice_empty() {
    let mut output: [u8; 0] = [];
    assert_eq!(decode_to_slice(b"", &mut output), Ok(()));
    assert_eq!(encode(&output), "");
}

#[test]
fn test_error_description() {
    assert_eq!(
        FromHexError::InvalidHexCharacter { c: 'z', index: 7 }.description(),
        "invalid character"
    );
    assert_eq!(FromHexError::OddLength.description(), "odd number of digits");
    assert_eq!(
        FromHexError::InvalidStringLength.description(),
        "invalid string length"
    );
}
