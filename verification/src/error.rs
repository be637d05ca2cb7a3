//! The failures that encoding and decoding report.

use vstd::prelude::*;

verus! {

/// Why a value could not be turned into a tree. Both come from the backend.
#[derive(Debug, Clone, PartialEq, Eq)]
pub enum ToKlvmError {
    /// The backend has no room for another node.
    OutOfMemory,
    /// Any other failure of the backend, in its own words.
    Custom(String),
}

/// Why a tree could not be turned into a value.
#[derive(Debug, Clone, PartialEq, Eq)]
pub enum FromKlvmError {
    /// The atom holds these bytes, which are not UTF-8.
    InvalidText(Vec<u8>),
    /// The atom has `found` bytes, and what it holds does not fit the
    /// `expected` bytes of the type.
    WrongAtomLength { expected: usize, found: usize },
    /// A pair stands where an atom is required.
    ExpectedAtom,
    /// An atom stands where a pair is required.
    ExpectedPair,
    /// The bytes have the right length and the type still refuses them.
    Custom(String),
}

/// A [`FromKlvmError`] as a mathematical value.
pub ghost enum DecodeFailure {
    InvalidText(Seq<u8>),
    WrongAtomLength { expected: nat, found: nat },
    ExpectedAtom,
    ExpectedPair,
    Custom(Seq<char>),
}

impl View for FromKlvmError {
    type V = DecodeFailure;

    open spec fn view(&self) -> DecodeFailure {
        match self {
            FromKlvmError::InvalidText(bytes) => DecodeFailure::InvalidText(bytes@),
            FromKlvmError::WrongAtomLength { expected, found } => DecodeFailure::WrongAtomLength {
                expected: *expected as nat,
                found: *found as nat,
            },
            FromKlvmError::ExpectedAtom => DecodeFailure::ExpectedAtom,
            FromKlvmError::ExpectedPair => DecodeFailure::ExpectedPair,
            FromKlvmError::Custom(message) => DecodeFailure::Custom(message@),
        }
    }
}

} // verus!
