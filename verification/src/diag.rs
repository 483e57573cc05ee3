//! Error and diagnostic types shared by the record decoders and the decode
//! sessions.

use vstd::prelude::*;

verus! {

/// Why one line failed to decode.
#[derive(Debug, Clone, Copy, PartialEq, Eq, Structural)]
pub enum DecodeError {
    /// The line does not start with the format's sentinel.
    MissingSentinel,
    /// The line is shorter than the format's minimum frame.
    TooShort,
    /// The record-type field is not a digit.
    BadRecordType,
    /// The record-type digit names a kind the format does not define.
    UnsupportedRecordType { kind: u8 },
    /// A byte where a hex digit is required, at this offset into the line.
    NonHexDigit { offset: usize },
    /// The line's length disagrees with its declared byte count.
    LengthMismatch,
    /// The hex payload has an odd number of digits.
    OddLength,
    /// The declared trailing checksum disagrees with the computed one.
    ChecksumMismatch { declared: u8, computed: u8 },
}

/// A structural failure that aborts a whole decode session: the offending
/// line, its 1-based number, and what was wrong with it.
#[derive(Debug)]
pub struct SessionError {
    pub line_number: usize,
    pub line: Vec<u8>,
    pub error: DecodeError,
}

/// Mathematical model of a `SessionError`.
#[verifier::ext_equal]
pub ghost struct SessionErrorModel {
    pub line_number: int,
    pub line: Seq<u8>,
    pub error: DecodeError,
}

impl View for SessionError {
    type V = SessionErrorModel;

    open spec fn view(&self) -> SessionErrorModel {
        SessionErrorModel { line_number: self.line_number as int, line: self.line@, error: self.error }
    }
}

} // verus!
