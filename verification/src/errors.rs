//! The failures a driver operation can end in.

use vstd::prelude::*;

verus! {

/// Error type for the TMC2209 driver.
#[derive(Debug, Clone, Copy, PartialEq, Eq, Structural)]
pub enum TmcError {
    /// A digital pin could not be driven or sampled.
    PinError,
    /// The serial transport reported a hard fault.
    SerialError,
    /// The checksum byte of a reply does not match its contents.
    CrcError,
    /// A reply answers a different request than the one sent, or a
    /// parameter lies outside the range of its register field.
    VerificationError,
    /// The chip did not act on a write: its write counter stood still
    /// although the transport never faulted and every reply was sound.
    LivenessError,
}

} // verus!
