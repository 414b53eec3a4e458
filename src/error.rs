use vstd::prelude::*;

verus! {

/// Why a sub-font could not be extracted.
#[derive(Debug, Clone, Copy, PartialEq, Eq, Structural)]
pub enum SplitError {
    /// A field would be read past the end of the input.
    TruncatedInput,
    /// A table record points outside the source bytes.
    OutOfBounds,
    /// The rebuilt font would place a table beyond what a 32-bit offset holds.
    OutputTooLarge,
}

} // verus!
