//! Encoding and decoding hex strings.
//!
//! For most cases, you can simply use the [`decode`], [`encode`] and
//! [`encode_upper`] functions. If you need a bit more control, use the traits
//! [`ToHex`] and [`FromHex`] instead.

use vstd::prelude::*;

pub mod error;
pub mod model;

pub use crate::error::FromHexError;

verus! {

use vstd::string::StringSliceAdditionalSpecFns;

use crate::model::is_hex_digit;
use crate::model::hex_digit_value;
use crate::model::hex_digit;
use crate::model::spec_encode;
use crate::model::spec_encode_chars;
use crate::model::lemma_hex_digit_ascii;
use crate::model::all_hex_digits;
use crate::model::decoded_pair;
use crate::model::spec_decode;
use crate::model::is_first_invalid;
use crate::model::decode_failure;
use crate::model::decode_to_slice_failure;
use crate::model::decode_in_slice_failure;
use crate::model::first_invalid_index;
use crate::model::lemma_first_invalid_unique;
use crate::model::ASCII_0;
use crate::model::ASCII_9;
use crate::model::ASCII_LC_A;
use crate::model::ASCII_LC_F;
use crate::model::ASCII_UC_A;
use crate::model::ASCII_UC_F;

/// The decode lookup of one byte: the value of the digit for `0-9`, `a-f`
/// and `A-F`, and `u8::MAX` for every other byte.
fn hex_value(b: u8) -> (r: u8)
    ensures
        is_hex_digit(b) ==> r == hex_digit_value(b),
        !is_hex_digit(b) ==> r == u8::MAX,
{
    if ASCII_0 <= b && b <= ASCII_9 {
        b - ASCII_0
    } else if ASCII_LC_A <= b && b <= ASCII_LC_F {
        b - ASCII_LC_A + 10
    } else if ASCII_UC_A <= b && b <= ASCII_UC_F {
        b - ASCII_UC_A + 10
    } else {
        u8::MAX
    }
}

/// The hex digit byte for a nibble, lower or upper case.
fn hex_digit_of(n: u8, upper: bool) -> (r: u8)
    requires
        n < 16,
    ensures
        r == hex_digit(n, upper),
{
    if n < 10 {
        ASCII_0 + n
    } else if upper {
        ASCII_UC_A + n - 10
    } else {
        ASCII_LC_A + n - 10
    }
}

/// The pair of hex digit bytes encoding one byte: most-significant nibble
/// first. The inverse of `val`.
pub fn byte2hex(byte: u8, upper: bool) -> (r: (u8, u8))
    ensures
        r.0 == hex_digit((byte / 16) as u8, upper),
        r.1 == hex_digit((byte % 16) as u8, upper),
{
    (hex_digit_of(byte / 16, upper), hex_digit_of(byte % 16, upper))
}

/// The hex text for `data`, as a vector of ASCII bytes.
fn encode_bytes(data: &[u8], upper: bool) -> (r: Vec<u8>)
    ensures
        r@ == spec_encode(data@, upper),
{
    let ghost enc = spec_encode(data@, upper);
    let mut out: Vec<u8> = Vec::new();
    let mut i: usize = 0;
    while i < data.len()
        invariant
            i <= data@.len(),
            enc == spec_encode(data@, upper),
            out@.len() == 2 * i,
            forall|k: int| 0 <= k < out@.len() ==> out@[k] == enc[k],
        decreases data@.len() - i,
    {
        let (high, low) = byte2hex(data[i], upper);
        out.push(high);
        out.push(low);
        i += 1;
    }
    assert(out@ =~= enc);
    out
}

/// Relies on `String::from_utf8`: bytes below 128 are ASCII, hence valid
/// UTF-8, and the resulting string's characters are exactly those bytes'
/// code points.
#[verifier::external_body]
fn ascii_to_string(bytes: Vec<u8>) -> (r: String)
    requires
        forall|i: int| 0 <= i < bytes@.len() ==> bytes@[i] < 128,
    ensures
        r@ == bytes@.map_values(|b: u8| b as char),
{
    match String::from_utf8(bytes) {
        Ok(s) => s,
        Err(_) => String::new(),
    }
}

/// Encodes `data` as hex string using lowercase characters.
///
/// The resulting string's length is always even, each byte in `data` is
/// encoded using two hex digits, most-significant nibble first.
#[must_use]
pub fn encode(data: &[u8]) -> (r: String)
    ensures
        r@ == spec_encode_chars(data@, false),
{
    encode_inner(data, false)
}

/// Encodes `data` as hex string using uppercase characters.
///
/// Apart from the characters' casing, this works exactly like `encode`.
#[must_use]
pub fn encode_upper(data: &[u8]) -> (r: String)
    ensures
        r@ == spec_encode_chars(data@, true),
{
    encode_inner(data, true)
}

/// Encodes `data` as hex string, in the requested case.
fn encode_inner(data: &[u8], upper: bool) -> (r: String)
    ensures
        r@ == spec_encode_chars(data@, upper),
{
    let hex = encode_bytes(data, upper);
    proof {
        assert forall|i: int| 0 <= i < hex@.len() implies hex@[i] < 128 by {
            lemma_hex_digit_ascii(
                if i % 2 == 0 {
                    (data@[i / 2] / 16) as u8
                } else {
                    (data@[i / 2] % 16) as u8
                },
                upper,
            );
        }
    }
    ascii_to_string(hex)
}

/// Decodes one digit pair: the byte `idx` of the input holds the pair's high
/// character, `idx + 1` its low one. The high character is checked first, so
/// the first invalid character of the pair is the one reported.
fn val(hi: u8, lo: u8, idx: usize) -> (r: Result<u8, FromHexError>)
    requires
        idx < usize::MAX,
    ensures
        is_hex_digit(hi) && is_hex_digit(lo) ==> r == Ok::<u8, FromHexError>(
            decoded_pair(hi, lo),
        ),
        !is_hex_digit(hi) ==> r == Err::<u8, FromHexError>(
            FromHexError::InvalidHexCharacter { c: hi as char, index: idx },
        ),
        is_hex_digit(hi) && !is_hex_digit(lo) ==> r == Err::<u8, FromHexError>(
            FromHexError::InvalidHexCharacter { c: lo as char, index: (idx + 1) as usize },
        ),
{
    let upper: u8 = hex_value(hi);
    let lower: u8 = hex_value(lo);
    if upper == u8::MAX {
        return Err(FromHexError::InvalidHexCharacter { c: hi as char, index: idx });
    }
    if lower == u8::MAX {
        return Err(FromHexError::InvalidHexCharacter { c: lo as char, index: idx + 1 });
    }
    Ok(upper * 16 + lower)
}

/// Decodes a hex string into raw bytes.
///
/// Both upper and lower case characters are valid in the input and can even
/// be mixed. The length check comes first: an odd-length input fails with
/// `OddLength` before any character is inspected. Otherwise the input is
/// scanned left to right and the first invalid character is reported with
/// its position.
pub fn decode(data: &[u8]) -> (r: Result<Vec<u8>, FromHexError>)
    ensures
        match r {
            Ok(bytes) => {
                &&& data@.len() % 2 == 0
                &&& all_hex_digits(data@)
                &&& bytes@ == spec_decode(data@)
            },
            Err(e) => decode_failure(data@, e),
        },
{
    if data.len() % 2 != 0 {
        return Err(FromHexError::OddLength);
    }
    let n: usize = data.len() / 2;
    let mut out: Vec<u8> = Vec::new();
    let mut i: usize = 0;
    while i < n
        invariant
            data@.len() <= usize::MAX,
            data@.len() % 2 == 0,
            n == data@.len() / 2,
            i <= n,
            out@.len() == i,
            forall|k: int| 0 <= k < i ==> out@[k] == spec_decode(data@)[k],
            forall|k: int| 0 <= k < 2 * i ==> is_hex_digit(#[trigger] data@[k]),
        decreases n - i,
    {
        match val(data[2 * i], data[2 * i + 1], 2 * i) {
            Ok(byte) => {
                out.push(byte);
            },
            Err(e) => {
                return Err(e);
            },
        }
        i += 1;
    }
    assert(out@ =~= spec_decode(data@));
    Ok(out)
}

/// Decode a hex string into a mutable bytes slice.
///
/// The odd-length check comes first, then the buffer-size check: `out` must
/// hold exactly half as many bytes as the input. Both fail before anything
/// is written. Only an invalid character can leave a partially filled
/// buffer: the pairs before it are decoded, the rest keeps its old bytes.
pub fn decode_to_slice(data: &[u8], out: &mut [u8]) -> (r: Result<(), FromHexError>)
    ensures
        final(out)@.len() == old(out)@.len(),
        match r {
            Ok(()) => {
                &&& data@.len() % 2 == 0
                &&& all_hex_digits(data@)
                &&& data@.len() / 2 == old(out)@.len()
                &&& final(out)@ == spec_decode(data@)
            },
            Err(e) => decode_to_slice_failure(data@, old(out)@, final(out)@, e),
        },
{
    if data.len() % 2 != 0 {
        return Err(FromHexError::OddLength);
    }
    if data.len() / 2 != out.len() {
        return Err(FromHexError::InvalidStringLength);
    }
    let n: usize = data.len() / 2;
    let mut i: usize = 0;
    while i < n
        invariant
            data@.len() <= usize::MAX,
            data@.len() % 2 == 0,
            n == data@.len() / 2,
            out@.len() == old(out)@.len(),
            n == out@.len(),
            i <= n,
            forall|k: int| 0 <= k < i ==> out@[k] == spec_decode(data@)[k],
            forall|k: int| i <= k < out@.len() ==> out@[k] == old(out)@[k],
            forall|k: int| 0 <= k < 2 * i ==> is_hex_digit(#[trigger] data@[k]),
        decreases n - i,
    {
        match val(data[2 * i], data[2 * i + 1], 2 * i) {
            Ok(byte) => {
                out[i] = byte;
            },
            Err(e) => {
                return Err(e);
            },
        }
        i += 1;
    }
    assert(out@ =~= spec_decode(data@));
    Ok(())
}

/// Decode a hex string into itself: the decoded bytes land in the first half
/// of the buffer, whose second half keeps its old bytes.
///
/// An odd-length buffer fails with `OddLength` before anything is written;
/// an invalid character leaves the pairs before it decoded into the
/// buffer's prefix.
pub fn decode_in_slice(in_out: &mut [u8]) -> (r: Result<(), FromHexError>)
    ensures
        final(in_out)@.len() == old(in_out)@.len(),
        match r {
            Ok(()) => {
                &&& old(in_out)@.len() % 2 == 0
                &&& all_hex_digits(old(in_out)@)
                &&& forall|k: int|
                    0 <= k < old(in_out)@.len() / 2 ==> final(in_out)@[k] == spec_decode(
                        old(in_out)@,
                    )[k]
                &&& forall|k: int|
                    old(in_out)@.len() / 2 <= k < old(in_out)@.len() ==> final(in_out)@[k] == old(
                        in_out,
                    )@[k]
            },
            Err(e) => decode_in_slice_failure(old(in_out)@, final(in_out)@, e),
        },
{
    if in_out.len() % 2 != 0 {
        return Err(FromHexError::OddLength);
    }
    let n: usize = in_out.len() / 2;
    let mut i: usize = 0;
    while i < n
        invariant
            in_out@.len() <= usize::MAX,
            in_out@.len() == old(in_out)@.len(),
            old(in_out)@.len() % 2 == 0,
            n == old(in_out)@.len() / 2,
            i <= n,
            forall|k: int| 0 <= k < i ==> in_out@[k] == spec_decode(old(in_out)@)[k],
            forall|k: int| i <= k < in_out@.len() ==> in_out@[k] == old(in_out)@[k],
            forall|k: int| 0 <= k < 2 * i ==> is_hex_digit(#[trigger] old(in_out)@[k]),
        decreases n - i,
    {
        match val(in_out[2 * i], in_out[2 * i + 1], 2 * i) {
            Ok(byte) => {
                in_out[i] = byte;
            },
            Err(e) => {
                return Err(e);
            },
        }
        i += 1;
    }
    Ok(())
}

/// Encodes some bytes into a mutable slice of bytes, using lowercase
/// characters.
///
/// The output buffer has to hold exactly `input.len() * 2` bytes, otherwise
/// this function fails with `InvalidStringLength` and writes nothing.
pub fn encode_to_slice(input: &[u8], output: &mut [u8]) -> (r: Result<(), FromHexError>)
    ensures
        final(output)@.len() == old(output)@.len(),
        match r {
            Ok(()) => {
                &&& old(output)@.len() == input@.len() * 2
                &&& final(output)@ == spec_encode(input@, false)
            },
            Err(e) => {
                &&& e == FromHexError::InvalidStringLength
                &&& old(output)@.len() != input@.len() * 2
                &&& final(output)@ == old(output)@
            },
        },
{
    if output.len() % 2 != 0 || output.len() / 2 != input.len() {
        return Err(FromHexError::InvalidStringLength);
    }
    let ghost enc = spec_encode(input@, false);
    let mut i: usize = 0;
    while i < input.len()
        invariant
            output@.len() <= usize::MAX,
            output@.len() == old(output)@.len(),
            output@.len() == input@.len() * 2,
            enc == spec_encode(input@, false),
            i <= input@.len(),
            forall|k: int| 0 <= k < 2 * i ==> output@[k] == enc[k],
            forall|k: int| 2 * i <= k < output@.len() ==> output@[k] == old(output)@[k],
        decreases input@.len() - i,
    {
        let (high, low) = byte2hex(input[i], false);
        output[2 * i] = high;
        output[2 * i + 1] = low;
        i += 1;
    }
    assert(output@ =~= enc);
    Ok(())
}

/// A lazy sequence of hex characters: produces the hex text for a byte
/// slice one character at a time, without allocating.
pub struct BytesToHexChars<'a> {
    bytes: &'a [u8],
    pos: usize,
    upper: bool,
}

impl<'a> BytesToHexChars<'a> {
    /// Well-formed: the position lies within the hex text, whose character
    /// count fits in `usize`.
    pub closed spec fn wf(&self) -> bool {
        &&& self.pos <= 2 * self.bytes@.len()
        &&& 2 * self.bytes@.len() <= usize::MAX
    }

    /// The characters still to come.
    pub closed spec fn remaining(&self) -> Seq<char> {
        spec_encode_chars(self.bytes@, self.upper).skip(self.pos as int)
    }

    /// A fresh producer for the hex text of `bytes`, in the requested case.
    pub fn new(bytes: &'a [u8], upper: bool) -> (r: BytesToHexChars<'a>)
        requires
            2 * bytes@.len() <= usize::MAX,
        ensures
            r.wf(),
            r.remaining() == spec_encode_chars(bytes@, upper),
    {
        let r = BytesToHexChars { bytes, pos: 0, upper };
        proof {
            assert(r.remaining() =~= spec_encode_chars(bytes@, upper));
        }
        r
    }

    /// The next hex character, or `None` once the text is exhausted.
    pub fn next(&mut self) -> (r: Option<char>)
        requires
            old(self).wf(),
        ensures
            final(self).wf(),
            old(self).remaining().len() > 0 ==> {
                &&& r == Some(old(self).remaining()[0])
                &&& final(self).remaining() == old(self).remaining().drop_first()
            },
            old(self).remaining().len() == 0 ==> {
                &&& r == None::<char>
                &&& *final(self) == *old(self)
            },
    {
        if self.pos / 2 < self.bytes.len() {
            let byte: u8 = self.bytes[self.pos / 2];
            let (high, low) = byte2hex(byte, self.upper);
            let digit: u8 = if self.pos % 2 == 0 {
                high
            } else {
                low
            };
            proof {
                assert(spec_encode(self.bytes@, self.upper)[self.pos as int] == digit);
                assert(old(self).remaining()[0] == digit as char);
            }
            self.pos = self.pos + 1;
            proof {
                assert(self.remaining() =~= old(self).remaining().drop_first());
            }
            Some(digit as char)
        } else {
            None
        }
    }

    /// How many characters are still to come; a random-access length query,
    /// available before any character is consumed.
    pub fn len(&self) -> (r: usize)
        requires
            self.wf(),
        ensures
            r == self.remaining().len(),
    {
        2 * self.bytes.len() - self.pos
    }
}

/// Encoding values as hex string.
///
/// This trait is implemented for byte slices, byte vectors, byte arrays and
/// strings.
///
/// *Note*: instead of using this trait, you might want to use [`encode()`].
pub trait ToHex {
    /// The byte sequence `self` stands for; the one the hex text encodes.
    spec fn hex_source(&self) -> Seq<u8>;

    /// Encode the hex strict representing `self` into the result. Lower case
    /// letters are used (e.g. `f9b4ca`).
    fn encode_hex(&self) -> (r: String)
        ensures
            r@ == spec_encode_chars(self.hex_source(), false),
    ;

    /// Encode the hex strict representing `self` into the result. Upper case
    /// letters are used (e.g. `F9B4CA`).
    fn encode_hex_upper(&self) -> (r: String)
        ensures
            r@ == spec_encode_chars(self.hex_source(), true),
    ;
}

impl ToHex for [u8] {
    open spec fn hex_source(&self) -> Seq<u8> {
        self@
    }

    fn encode_hex(&self) -> (r: String) {
        encode_inner(self, false)
    }

    fn encode_hex_upper(&self) -> (r: String) {
        encode_inner(self, true)
    }
}

impl ToHex for Vec<u8> {
    open spec fn hex_source(&self) -> Seq<u8> {
        self@
    }

    fn encode_hex(&self) -> (r: String) {
        encode_inner(self.as_slice(), false)
    }

    fn encode_hex_upper(&self) -> (r: String) {
        encode_inner(self.as_slice(), true)
    }
}

impl<const N: usize> ToHex for [u8; N] {
    open spec fn hex_source(&self) -> Seq<u8> {
        self@
    }

    fn encode_hex(&self) -> (r: String) {
        encode_inner(self.as_slice(), false)
    }

    fn encode_hex_upper(&self) -> (r: String) {
        encode_inner(self.as_slice(), true)
    }
}

impl ToHex for str {
    open spec fn hex_source(&self) -> Seq<u8> {
        self.spec_bytes()
    }

    fn encode_hex(&self) -> (r: String) {
        encode_inner(self.as_bytes(), false)
    }

    fn encode_hex_upper(&self) -> (r: String) {
        encode_inner(self.as_bytes(), true)
    }
}

impl ToHex for String {
    open spec fn hex_source(&self) -> Seq<u8> {
        vstd::utf8::encode_utf8(self@)
    }

    fn encode_hex(&self) -> (r: String) {
        encode_inner(self.as_str().as_bytes(), false)
    }

    fn encode_hex_upper(&self) -> (r: String) {
        encode_inner(self.as_str().as_bytes(), true)
    }
}

/// Types that can be decoded from a hex string.
///
/// This trait is implemented for `Vec<u8>` and `u8`-arrays of any length.
///
/// Both upper and lower case characters are valid and can even be mixed
/// (e.g. `f9b4ca`, `F9B4CA` and `f9B4Ca` are all valid strings).
pub trait FromHex: Sized {
    /// The error reported when no `Self` can be constructed.
    type Error;

    /// The inputs from which a `Self` can be constructed.
    spec fn from_hex_ok(s: Seq<u8>) -> bool;

    /// How a successfully constructed value relates to the input.
    spec fn from_hex_eq(s: Seq<u8>, v: Self) -> bool;

    /// The error reported for an input no `Self` can be constructed from.
    spec fn from_hex_err(s: Seq<u8>) -> Self::Error;

    /// Creates an instance of type `Self` from the given hex string, or
    /// fails with a custom error type.
    fn from_hex(hex: &[u8]) -> (r: Result<Self, Self::Error>)
        ensures
            Self::from_hex_ok(hex@) ==> (r matches Ok(v) && Self::from_hex_eq(hex@, v)),
            !Self::from_hex_ok(hex@) ==> (r matches Err(e) && e == Self::from_hex_err(hex@)),
    ;
}

impl FromHex for Vec<u8> {
    type Error = FromHexError;

    open spec fn from_hex_ok(s: Seq<u8>) -> bool {
        s.len() % 2 == 0 && all_hex_digits(s)
    }

    open spec fn from_hex_eq(s: Seq<u8>, v: Self) -> bool {
        v@ == spec_decode(s)
    }

    open spec fn from_hex_err(s: Seq<u8>) -> FromHexError {
        if s.len() % 2 != 0 {
            FromHexError::OddLength
        } else {
            FromHexError::InvalidHexCharacter {
                c: s[first_invalid_index(s)] as char,
                index: first_invalid_index(s) as usize,
            }
        }
    }

    fn from_hex(hex: &[u8]) -> (r: Result<Self, FromHexError>) {
        let r: Result<Vec<u8>, FromHexError> = decode(hex);
        proof {
            lemma_decode_failure_determines_error(hex@, r);
        }
        r
    }
}

impl<const N: usize> FromHex for [u8; N] {
    type Error = FromHexError;

    open spec fn from_hex_ok(s: Seq<u8>) -> bool {
        s.len() % 2 == 0 && s.len() / 2 == N && all_hex_digits(s)
    }

    open spec fn from_hex_eq(s: Seq<u8>, v: Self) -> bool {
        v@ == spec_decode(s)
    }

    open spec fn from_hex_err(s: Seq<u8>) -> FromHexError {
        if s.len() % 2 != 0 {
            FromHexError::OddLength
        } else if s.len() / 2 != N {
            FromHexError::InvalidStringLength
        } else {
            FromHexError::InvalidHexCharacter {
                c: s[first_invalid_index(s)] as char,
                index: first_invalid_index(s) as usize,
            }
        }
    }

    fn from_hex(hex: &[u8]) -> (r: Result<Self, FromHexError>) {
        let mut out = [0u8; N];
        match decode_to_slice(hex, &mut out) {
            Ok(()) => Ok(out),
            Err(e) => {
                proof {
                    match e {
                        FromHexError::InvalidHexCharacter { c, index } => {
                            assert(is_first_invalid(hex@, index as int));
                            lemma_first_invalid_unique(
                                hex@,
                                index as int,
                                first_invalid_index(hex@),
                            );
                        },
                        _ => {},
                    }
                }
                Err(e)
            },
        }
    }
}

/// A decode failure pins the reported error down: for an odd length it is
/// `OddLength`, otherwise the unique first invalid character.
proof fn lemma_decode_failure_determines_error(s: Seq<u8>, r: Result<Vec<u8>, FromHexError>)
    requires
        match r {
            Ok(bytes) => s.len() % 2 == 0 && all_hex_digits(s) && bytes@ == spec_decode(s),
            Err(e) => decode_failure(s, e),
        },
    ensures
        (s.len() % 2 == 0 && all_hex_digits(s)) ==> (r matches Ok(v) && v@ == spec_decode(s)),
        !(s.len() % 2 == 0 && all_hex_digits(s)) ==> (r matches Err(e) && e
            == <Vec<u8> as FromHex>::from_hex_err(s)),
{
    match r {
        Ok(_) => {},
        Err(e) => {
            match e {
                FromHexError::InvalidHexCharacter { c, index } => {
                    assert(is_first_invalid(s, index as int));
                    lemma_first_invalid_unique(s, index as int, first_invalid_index(s));
                },
                _ => {},
            }
        },
    }
}

} // verus!
