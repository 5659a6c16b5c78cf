use vstd::prelude::*;

verus! {

/// A coordinate fell outside the 8x8 grid.
#[derive(Debug, Clone, Copy, PartialEq, Eq, Structural)]
pub struct OutOfBounds;

/// A well-formed diff contradicted the board state.
#[derive(Debug, Clone, Copy, PartialEq, Eq, Structural)]
pub enum InvalidDiff {
    /// Tried to capture, when the diff is Move-typed.
    CaptureOnMoveTy,
    /// Failed to capture, when the diff is Capture-typed.
    MoveOnCaptureTy,
    /// Tried to promote a piece that is not a pawn.
    InvalidPromotionPiece,
    /// Tried to promote from or to the wrong rank.
    InvalidPromotionRow,
}

/// Every failure the library reports. All are local, recoverable, value-level
/// conditions; none leaves a board partially mutated.
#[derive(Debug, Clone, Copy, PartialEq, Eq, Structural)]
pub enum Error {
    InvalidDiff(InvalidDiff),
    OutOfBounds,
    NoPiece,
}

impl From<OutOfBounds> for Error {
    fn from(_e: OutOfBounds) -> (r: Self)
        ensures
            r == Error::OutOfBounds,
    {
        Error::OutOfBounds
    }
}

impl vstd::std_specs::convert::FromSpecImpl<OutOfBounds> for Error {
    open spec fn obeys_from_spec() -> bool {
        true
    }

    open spec fn from_spec(e: OutOfBounds) -> Self {
        Error::OutOfBounds
    }
}

impl From<InvalidDiff> for Error {
    fn from(d: InvalidDiff) -> (r: Self)
        ensures
            r == Error::InvalidDiff(d),
    {
        Error::InvalidDiff(d)
    }
}

impl vstd::std_specs::convert::FromSpecImpl<InvalidDiff> for Error {
    open spec fn obeys_from_spec() -> bool {
        true
    }

    open spec fn from_spec(d: InvalidDiff) -> Self {
        Error::InvalidDiff(d)
    }
}

} // verus!
