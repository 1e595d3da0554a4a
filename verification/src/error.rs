//! The error type shared by every fallible operation of the crate.

use vstd::prelude::*;

verus! {

/// The broad class an error belongs to.
#[derive(Debug, Clone, Copy, PartialEq, Eq, Structural)]
pub enum ErrorKind {
    /// A value lies outside what can be represented or accepted.
    Range,
    /// A value cannot be determined from what the time-zone data offers.
    Type,
    /// The caller or the provider broke an internal invariant.
    Assert,
    /// A failure reported by the time-zone provider.
    Provider,
}

/// Why an operation failed.
#[derive(Debug, Clone, Copy, PartialEq, Eq, Structural)]
pub enum TemporalError {
    /// The text is not a UTC offset.
    InvalidOffset,
    /// An offset's fractional seconds carry more than nine digits.
    InvalidFraction,
    /// A calendar date lies outside the representable range of days.
    DateOutOfRange,
    /// An instant lies outside the representable range of instants.
    InstantOutOfRange,
    /// The text is neither a zone name nor an offset usable as an identifier.
    InvalidTimeZoneIdentifier,
    /// The text carries no time zone in any accepted form.
    InvalidTimeZoneString,
    /// A local time is skipped or repeated and the policy is to reject it.
    AmbiguousTime,
    /// The provider reports no transition where a day's start was skipped.
    StartOfDayUndetermined,
    /// The provider does not know the identifier.
    UnknownTimeZone,
    /// The provider could not read its data.
    ProviderFailure,
    /// The provider's answers contradict each other.
    InvariantViolation,
}

impl TemporalError {
    /// The class of this error.
    pub open spec fn spec_kind(self) -> ErrorKind {
        match self {
            TemporalError::StartOfDayUndetermined => ErrorKind::Type,
            TemporalError::InvariantViolation => ErrorKind::Assert,
            TemporalError::UnknownTimeZone | TemporalError::ProviderFailure => ErrorKind::Provider,
            _ => ErrorKind::Range,
        }
    }

    /// The class of this error.
    pub fn kind(&self) -> (r: ErrorKind)
        ensures
            r == self.spec_kind(),
    {
        match self {
            TemporalError::StartOfDayUndetermined => ErrorKind::Type,
            TemporalError::InvariantViolation => ErrorKind::Assert,
            TemporalError::UnknownTimeZone | TemporalError::ProviderFailure => ErrorKind::Provider,
            _ => ErrorKind::Range,
        }
    }

    /// A sentence for people to read.
    pub fn message(&self) -> (r: &'static str)
        ensures
            r@ == self.spec_message(),
    {
        match self {
            TemporalError::InvalidOffset => "Not a valid UTC offset.",
            TemporalError::InvalidFraction => "Fractional seconds exceed nine digits.",
            TemporalError::DateOutOfRange => "Not in a valid ISO day range.",
            TemporalError::InstantOutOfRange => "Instant nanoseconds are not within a valid epoch range.",
            TemporalError::InvalidTimeZoneIdentifier => "Invalid TimeZone Identifier",
            TemporalError::InvalidTimeZoneString => "Not a valid time zone string",
            TemporalError::AmbiguousTime => "Rejecting ambiguous time zones.",
            TemporalError::StartOfDayUndetermined => "Could not determine the start of day for the provided date.",
            TemporalError::UnknownTimeZone => "Time zone identifier is not known to the provider.",
            TemporalError::ProviderFailure => "The time zone provider failed.",
            TemporalError::InvariantViolation => "The time zone provider gave inconsistent answers.",
        }
    }

    /// The text of `message`.
    pub open spec fn spec_message(self) -> Seq<char> {
        match self {
            TemporalError::InvalidOffset => "Not a valid UTC offset."@,
            TemporalError::InvalidFraction => "Fractional seconds exceed nine digits."@,
            TemporalError::DateOutOfRange => "Not in a valid ISO day range."@,
            TemporalError::InstantOutOfRange => "Instant nanoseconds are not within a valid epoch range."@,
            TemporalError::InvalidTimeZoneIdentifier => "Invalid TimeZone Identifier"@,
            TemporalError::InvalidTimeZoneString => "Not a valid time zone string"@,
            TemporalError::AmbiguousTime => "Rejecting ambiguous time zones."@,
            TemporalError::StartOfDayUndetermined => "Could not determine the start of day for the provided date."@,
            TemporalError::UnknownTimeZone => "Time zone identifier is not known to the provider."@,
            TemporalError::ProviderFailure => "The time zone provider failed."@,
            TemporalError::InvariantViolation => "The time zone provider gave inconsistent answers."@,
        }
    }
}

} // verus!
