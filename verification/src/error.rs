use vstd::prelude::*;

verus! {

/// The error type for decoding a hex string into `Vec<u8>` or `[u8; N]`.
#[derive(Debug, Clone, Copy, PartialEq, Eq, Structural)]
pub enum FromHexError {
    /// An invalid character was found. Valid ones are: `0...9`, `a...f`
    /// or `A...F`.
    InvalidHexCharacter { c: char, index: usize },
    /// A hex string's length needs to be even, as two digits correspond to
    /// one byte.
    OddLength,
    /// If the hex string is decoded into a fixed sized container, such as an
    /// array, the hex string's length * 2 has to match the container's
    /// length.
    InvalidStringLength,
}

/// The short description each error variant carries.
pub open spec fn spec_description(e: FromHexError) -> Seq<char> {
    match e {
        FromHexError::InvalidHexCharacter { .. } => "invalid character"@,
        FromHexError::OddLength => "odd number of digits"@,
        FromHexError::InvalidStringLength => "invalid string length"@,
    }
}

impl FromHexError {
    /// A human-readable description of the failure.
    pub fn description(&self) -> (r: &'static str)
        ensures
            r@ == spec_description(*self),
    {
        match *self {
            FromHexError::InvalidHexCharacter { .. } => "invalid character",
            FromHexError::OddLength => "odd number of digits",
            FromHexError::InvalidStringLength => "invalid string length",
        }
    }
}

} // verus!
