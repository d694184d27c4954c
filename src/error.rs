//! Failure vocabulary shared by the guards, the alignment checks and the
//! conversions.
use vstd::prelude::*;

verus! {

/// Why a guard refused a byte count.
#[derive(Clone, Copy, Debug, PartialEq, Eq, Structural)]
pub enum ErrorReason {
    /// Fewer bytes than the policy's minimum.
    NotEnoughBytes,
    /// More bytes than the policy allows, or a count that is not a whole
    /// number of elements.
    TooManyBytes,
}

/// A guard's refusal: the byte count it would have accepted and the one it got.
#[derive(Clone, Copy, Debug, PartialEq, Eq, Structural)]
pub struct GuardError {
    pub required: usize,
    pub actual: usize,
    pub reason: ErrorReason,
}

/// A buffer whose start is not aligned for the target type: `offset` leading
/// bytes would have to be discarded to reach an aligned start.
#[derive(Clone, Copy, Debug, PartialEq, Eq, Structural)]
pub struct UnalignedError {
    pub offset: usize,
}

/// Any failure of a checked conversion.
#[derive(Clone, Copy, Debug, PartialEq, Eq, Structural)]
pub enum Error {
    Guard(GuardError),
    Unaligned(UnalignedError),
    /// The bytes do not form a valid value of the target type. No conversion
    /// of this library raises it: every target type here is valid for each bit
    /// pattern of its size.
    InvalidValue,
}

} // verus!
