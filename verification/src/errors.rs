//! The error taxonomy of the conversion pipeline.

use vstd::prelude::*;

verus! {

/// An error of the conversion pipeline. Every failure aborts the current
/// conversion; no partial output is produced.
#[derive(Clone, Copy, Debug, PartialEq, Eq, Structural)]
pub enum ConvertError {
    /// Address stripping was requested on a sequence of fewer than sixteen
    /// tokens.
    InsufficientTokens,
    /// Paired word assembly was given an odd number of tokens.
    OddTokenCount,
    /// A token that is not a two-digit hexadecimal pair reached the
    /// assembler.
    MalformedToken,
    /// The legacy byte decode was irrecoverable. The legacy decoder
    /// substitutes replacement characters rather than failing, so the
    /// decode path never produces this; it is modeled for completeness.
    DecodeError,
    /// The interactive mode selector word was not recognized.
    InvalidModeSelector,
}

} // verus!
