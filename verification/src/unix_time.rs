//! Instants on the epoch time line.

use vstd::prelude::*;

use crate::error::TemporalError;
use crate::iso::NS_MAX_INSTANT;

verus! {

/// An absolute instant: nanoseconds since 1970-01-01T00:00:00Z.
#[derive(Debug, Clone, Copy, PartialEq, Eq, Structural)]
pub struct EpochNanoseconds(pub i128);

impl EpochNanoseconds {
    /// The instant lies within `NS_MAX_INSTANT` of the epoch.
    pub open spec fn spec_is_valid(self) -> bool {
        -NS_MAX_INSTANT <= self.0 <= NS_MAX_INSTANT
    }

    /// The number as an instant, if it lies within `NS_MAX_INSTANT` of the epoch.
    pub fn try_from_i128(nanoseconds: i128) -> (r: Result<Self, TemporalError>)
        ensures
            r == if EpochNanoseconds(nanoseconds).spec_is_valid() {
                Ok::<Self, TemporalError>(EpochNanoseconds(nanoseconds))
            } else {
                Err::<Self, TemporalError>(TemporalError::InstantOutOfRange)
            },
    {
        let instant = EpochNanoseconds(nanoseconds);
        match instant.check_validity() {
            Ok(()) => Ok(instant),
            Err(e) => Err(e),
        }
    }

    /// The nanoseconds since the epoch.
    pub fn as_i128(&self) -> (r: i128)
        ensures
            r == self.0,
    {
        self.0
    }

    /// Accepts the instant if it lies within `NS_MAX_INSTANT` of the epoch.
    pub fn check_validity(&self) -> (r: Result<(), TemporalError>)
        ensures
            r == if self.spec_is_valid() {
                Ok::<(), TemporalError>(())
            } else {
                Err::<(), TemporalError>(TemporalError::InstantOutOfRange)
            },
    {
        if self.0 < -NS_MAX_INSTANT || self.0 > NS_MAX_INSTANT {
            return Err(TemporalError::InstantOutOfRange);
        }
        Ok(())
    }
}

} // verus!
