//! The mathematical model of the codec: what hex text a byte sequence
//! encodes to, and what bytes a hex text decodes to.

use vstd::prelude::*;

use crate::error::FromHexError;

verus! {

/// ASCII code of `'0'`.
pub const ASCII_0: u8 = 48;

/// ASCII code of `'9'`.
pub const ASCII_9: u8 = 57;

/// ASCII code of `'a'`.
pub const ASCII_LC_A: u8 = 97;

/// ASCII code of `'f'`.
pub const ASCII_LC_F: u8 = 102;

/// ASCII code of `'A'`.
pub const ASCII_UC_A: u8 = 65;

/// ASCII code of `'F'`.
pub const ASCII_UC_F: u8 = 70;

/// A byte is a hex digit when it is the ASCII code of `0-9`, `a-f` or `A-F`.
pub open spec fn is_hex_digit(b: u8) -> bool {
    (ASCII_0 <= b && b <= ASCII_9) || (ASCII_LC_A <= b && b <= ASCII_LC_F) || (ASCII_UC_A <= b && b <= ASCII_UC_F)
}

/// The value of a hex digit byte (meaningful only when `is_hex_digit(b)`).
pub open spec fn hex_digit_value(b: u8) -> u8 {
    if ASCII_0 <= b && b <= ASCII_9 {
        (b - ASCII_0) as u8
    } else if ASCII_LC_A <= b && b <= ASCII_LC_F {
        (b - ASCII_LC_A + 10) as u8
    } else if ASCII_UC_A <= b && b <= ASCII_UC_F {
        (b - ASCII_UC_A + 10) as u8
    } else {
        u8::MAX
    }
}

/// The ASCII code of the hex digit for a nibble `n < 16`, lower or upper case.
pub open spec fn hex_digit(n: u8, upper: bool) -> u8 {
    if n < 10 {
        (ASCII_0 + n) as u8
    } else if upper {
        (ASCII_UC_A + n - 10) as u8
    } else {
        (ASCII_LC_A + n - 10) as u8
    }
}

/// The hex text for `data`, as a sequence of ASCII bytes: each byte of `data`
/// becomes two digits, most-significant nibble first.
pub open spec fn spec_encode(data: Seq<u8>, upper: bool) -> Seq<u8> {
    Seq::new(
        data.len() * 2,
        |i: int|
            if i % 2 == 0 {
                hex_digit((data[i / 2] / 16) as u8, upper)
            } else {
                hex_digit((data[i / 2] % 16) as u8, upper)
            },
    )
}

/// The hex text for `data`, as the character sequence a `String` views as.
pub open spec fn spec_encode_chars(data: Seq<u8>, upper: bool) -> Seq<char> {
    spec_encode(data, upper).map_values(|b: u8| b as char)
}

/// Every byte of `s` is a hex digit.
pub open spec fn all_hex_digits(s: Seq<u8>) -> bool {
    forall|i: int| 0 <= i < s.len() ==> is_hex_digit(#[trigger] s[i])
}

/// The byte encoded by the digit pair `hi`, `lo`.
pub open spec fn decoded_pair(hi: u8, lo: u8) -> u8 {
    (hex_digit_value(hi) * 16 + hex_digit_value(lo)) as u8
}

/// The bytes a hex text decodes to (meaningful only when `s` has even length
/// and all its bytes are hex digits).
pub open spec fn spec_decode(s: Seq<u8>) -> Seq<u8> {
    Seq::new(s.len() / 2, |i: int| decoded_pair(s[2 * i], s[2 * i + 1]))
}

/// `idx` is the position of the first byte of `s` that is not a hex digit.
pub open spec fn is_first_invalid(s: Seq<u8>, idx: int) -> bool {
    &&& 0 <= idx < s.len()
    &&& !is_hex_digit(s[idx])
    &&& forall|j: int| 0 <= j < idx ==> is_hex_digit(#[trigger] s[j])
}

/// At most one position can be the first invalid one.
pub proof fn lemma_first_invalid_unique(s: Seq<u8>, i: int, j: int)
    requires
        is_first_invalid(s, i),
        is_first_invalid(s, j),
    ensures
        i == j,
{
}

/// The position of the first byte of `s` that is not a hex digit
/// (meaningful only when `!all_hex_digits(s)`).
pub open spec fn first_invalid_index(s: Seq<u8>) -> int {
    choose|i: int| is_first_invalid(s, i)
}

/// What a failed `decode` reports: `OddLength` exactly when the input cannot
/// be paired up, and otherwise the first invalid character with its position
/// in the input.
pub open spec fn decode_failure(s: Seq<u8>, e: FromHexError) -> bool {
    match e {
        FromHexError::OddLength => s.len() % 2 != 0,
        FromHexError::InvalidHexCharacter { c, index } => {
            &&& s.len() % 2 == 0
            &&& is_first_invalid(s, index as int)
            &&& c == s[index as int] as char
        },
        FromHexError::InvalidStringLength => false,
    }
}

/// What a failed `decode_to_slice` reports, and what it leaves in the output
/// buffer: the odd-length and buffer-size checks come first and leave the
/// buffer untouched; an invalid character leaves the pairs before it decoded
/// and the rest of the buffer as it was.
pub open spec fn decode_to_slice_failure(
    s: Seq<u8>,
    out0: Seq<u8>,
    out1: Seq<u8>,
    e: FromHexError,
) -> bool {
    match e {
        FromHexError::OddLength => s.len() % 2 != 0 && out1 == out0,
        FromHexError::InvalidStringLength => {
            &&& s.len() % 2 == 0
            &&& s.len() / 2 != out0.len()
            &&& out1 == out0
        },
        FromHexError::InvalidHexCharacter { c, index } => {
            &&& s.len() % 2 == 0
            &&& s.len() / 2 == out0.len()
            &&& is_first_invalid(s, index as int)
            &&& c == s[index as int] as char
            &&& forall|j: int| 0 <= j < index as int / 2 ==> out1[j] == spec_decode(s)[j]
            &&& forall|j: int| index as int / 2 <= j < out1.len() ==> out1[j] == out0[j]
        },
    }
}

/// What a failed `decode_in_slice` reports, and what it leaves in the buffer:
/// an odd length leaves it untouched; an invalid character leaves the pairs
/// before it decoded into the buffer's prefix and the rest as it was.
pub open spec fn decode_in_slice_failure(s: Seq<u8>, out1: Seq<u8>, e: FromHexError) -> bool {
    match e {
        FromHexError::OddLength => s.len() % 2 != 0 && out1 == s,
        FromHexError::InvalidHexCharacter { c, index } => {
            &&& s.len() % 2 == 0
            &&& is_first_invalid(s, index as int)
            &&& c == s[index as int] as char
            &&& forall|j: int| 0 <= j < index as int / 2 ==> out1[j] == spec_decode(s)[j]
            &&& forall|j: int| index as int / 2 <= j < out1.len() ==> out1[j] == s[j]
        },
        FromHexError::InvalidStringLength => false,
    }
}

/// Hex digits are ASCII: every byte of an encoding is below 128.
pub proof fn lemma_hex_digit_ascii(n: u8, upper: bool)
    requires
        n < 16,
    ensures
        hex_digit(n, upper) < 128,
        is_hex_digit(hex_digit(n, upper)),
        hex_digit_value(hex_digit(n, upper)) == n,
{
}

/// Law: decoding inverts encoding. For every byte sequence, its hex text has
/// twice its length, consists of hex digits only, and decodes back to it, in
/// either case.
pub proof fn lemma_round_trip(data: Seq<u8>, upper: bool)
    ensures
        spec_encode(data, upper).len() == data.len() * 2,
        all_hex_digits(spec_encode(data, upper)),
        spec_decode(spec_encode(data, upper)) == data,
{
    let enc = spec_encode(data, upper);
    assert forall|i: int| 0 <= i < enc.len() implies is_hex_digit(#[trigger] enc[i]) by {
        lemma_hex_digit_ascii(
            if i % 2 == 0 {
                (data[i / 2] / 16) as u8
            } else {
                (data[i / 2] % 16) as u8
            },
            upper,
        );
    }
    assert forall|i: int| 0 <= i < data.len() implies spec_decode(enc)[i] == data[i] by {
        lemma_hex_digit_ascii((data[i] / 16) as u8, upper);
        lemma_hex_digit_ascii((data[i] % 16) as u8, upper);
        assert(enc[2 * i] == hex_digit((data[i] / 16) as u8, upper));
        assert(enc[2 * i + 1] == hex_digit((data[i] % 16) as u8, upper));
    }
    assert(spec_decode(enc) =~= data);
}

/// The hex text is ASCII, so the string `encode` returns reads back, byte by
/// byte, as exactly the hex digit bytes: its UTF-8 encoding is `spec_encode`.
pub proof fn lemma_encode_chars_utf8(data: Seq<u8>, upper: bool)
    ensures
        vstd::utf8::encode_utf8(spec_encode_chars(data, upper)) == spec_encode(data, upper),
{
    let chars = spec_encode_chars(data, upper);
    let bytes = spec_encode(data, upper);
    assert forall|i: int| 0 <= i < chars.len() implies '\0' <= #[trigger] chars[i]
        <= '\u{7f}' by {
        lemma_hex_digit_ascii(
            if i % 2 == 0 {
                (data[i / 2] / 16) as u8
            } else {
                (data[i / 2] % 16) as u8
            },
            upper,
        );
        assert(chars[i] == bytes[i] as char);
    }
    assert(vstd::utf8::is_ascii_chars(chars));
    vstd::utf8::is_ascii_chars_encode_utf8(chars);
    assert forall|i: int| 0 <= i < chars.len() implies vstd::utf8::encode_utf8(chars)[i]
        == bytes[i] by {
        assert(chars[i] == bytes[i] as char);
    }
    assert(vstd::utf8::encode_utf8(chars) =~= bytes);
}

/// Law: the round trip through the string-typed interface. Reading the hex
/// string for `data` back as bytes gives an even-length, all-hex-digit text
/// that decodes to `data`, in either case.
pub proof fn lemma_round_trip_chars(data: Seq<u8>, upper: bool)
    ensures
        vstd::utf8::encode_utf8(spec_encode_chars(data, upper)).len() % 2 == 0,
        all_hex_digits(vstd::utf8::encode_utf8(spec_encode_chars(data, upper))),
        spec_decode(vstd::utf8::encode_utf8(spec_encode_chars(data, upper))) == data,
{
    lemma_encode_chars_utf8(data, upper);
    lemma_round_trip(data, upper);
}

} // verus!
