//! What can go wrong.

use crate::abi::types::{SolType, SolValue};
use vstd::prelude::*;

verus! {

/// The kinds of failure.
#[derive(Clone, Copy, Debug, PartialEq, Eq, Structural)]
pub enum ErrorKind {
    InvalidLength,
    TypeMismatch,
    CountMismatch,
    ArityMismatch,
    InvalidTopicCount,
    Decode,
    Encode,
}

/// A failure, with what was found.
#[derive(Debug)]
pub enum AbiError {
    /// A byte slice of `len` bytes is too long for a 32-byte slot.
    InvalidLength { len: usize },
    /// The value cannot stand for the type.
    TypeMismatch { expected: SolType, actual: SolValue },
    /// A log decoded to `decoded` values where the event declares `declared`
    /// parameters.
    CountMismatch { declared: usize, decoded: usize },
    /// `values` values were given for `inputs` inputs.
    ArityMismatch { inputs: usize, values: usize },
    /// A log with `topics` topics cannot come from the event.
    InvalidTopicCount { topics: usize },
    /// The decoder refused the bytes.
    Decode(alloy::dyn_abi::Error),
    /// The encoder refused the values.
    Encode(alloy::dyn_abi::Error),
}

impl AbiError {
    /// The kind of this failure.
    pub open spec fn spec_kind(&self) -> ErrorKind {
        match self {
            AbiError::InvalidLength { .. } => ErrorKind::InvalidLength,
            AbiError::TypeMismatch { .. } => ErrorKind::TypeMismatch,
            AbiError::CountMismatch { .. } => ErrorKind::CountMismatch,
            AbiError::ArityMismatch { .. } => ErrorKind::ArityMismatch,
            AbiError::InvalidTopicCount { .. } => ErrorKind::InvalidTopicCount,
            AbiError::Decode(_) => ErrorKind::Decode,
            AbiError::Encode(_) => ErrorKind::Encode,
        }
    }

    /// The kind of this failure.
    #[verifier::when_used_as_spec(spec_kind)]
    pub fn kind(&self) -> (k: ErrorKind)
        ensures
            k == self.spec_kind(),
    {
        match self {
            AbiError::InvalidLength { .. } => ErrorKind::InvalidLength,
            AbiError::TypeMismatch { .. } => ErrorKind::TypeMismatch,
            AbiError::CountMismatch { .. } => ErrorKind::CountMismatch,
            AbiError::ArityMismatch { .. } => ErrorKind::ArityMismatch,
            AbiError::InvalidTopicCount { .. } => ErrorKind::InvalidTopicCount,
            AbiError::Decode(_) => ErrorKind::Decode,
            AbiError::Encode(_) => ErrorKind::Encode,
        }
    }
}

} // verus!
