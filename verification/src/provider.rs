//! The interface to a time-zone database.
//!
//! The crate owns no database. Whoever calls it hands in a provider: anything
//! that can put an identifier into its canonical form, tell the offset in
//! force at an instant, and tell at which instants a zone's clocks show a
//! given local time.

use vstd::prelude::*;

use crate::error::TemporalError;
use crate::iso::IsoDateTime;
use crate::unix_time::EpochNanoseconds;

verus! {

/// An offset from UTC in whole seconds.
#[derive(Debug, Clone, Copy, PartialEq, Eq, Structural)]
pub struct UtcOffsetSeconds(pub i64);

/// What a provider knows of a zone at one instant.
#[derive(Debug, Clone, Copy, PartialEq, Eq, Structural)]
pub struct TimeZoneTransitionInfo {
    /// The instant, in seconds since the epoch, at which the offset in force
    /// took effect, where the provider can tell.
    pub transition_epoch: Option<i64>,
    /// The offset in force.
    pub offset: UtcOffsetSeconds,
}

/// A canonical name with its text as the view, or the error.
pub open spec fn name_view(r: Result<String, TemporalError>) -> Result<Seq<char>, TemporalError> {
    match r {
        Ok(name) => Ok(name@),
        Err(e) => Err(e),
    }
}

/// A list of instants as a sequence, or the error.
pub open spec fn instants_view(r: Result<Vec<EpochNanoseconds>, TemporalError>) -> Result<
    Seq<EpochNanoseconds>,
    TemporalError,
> {
    match r {
        Ok(instants) => Ok(instants@),
        Err(e) => Err(e),
    }
}

/// At most two instants, the earlier first: what a zone can have for one
/// local time.
pub open spec fn in_order(found: Seq<EpochNanoseconds>) -> bool {
    found.len() <= 2 && (found.len() == 2 ==> found[0].0 < found[1].0)
}

/// A time-zone database.
///
/// Each query has a spec function beside it that stands for the answer. A
/// provider answers a question the same way whenever it is asked: the crate
/// may ask several questions to settle one local time and relies on the
/// answers belonging together. The instants of a local time come in order,
/// two at most. Nothing else is promised of what the answers are. An
/// implementation in verified code defines the three spec functions; one in
/// unverified code leaves them alone.
pub trait TimeZoneProvider {
    /// The answer of `normalize_identifier`.
    open spec fn normalized(&self, ident: Seq<u8>) -> Result<Seq<char>, TemporalError> {
        arbitrary()
    }

    /// The answer of `get_named_tz_epoch_nanoseconds`.
    open spec fn local_candidates(&self, identifier: Seq<char>, local: IsoDateTime) -> Result<
        Seq<EpochNanoseconds>,
        TemporalError,
    > {
        arbitrary()
    }

    /// The answer of `get_named_tz_offset_nanoseconds`.
    open spec fn transition_info(&self, identifier: Seq<char>, epoch_nanoseconds: i128) -> Result<
        TimeZoneTransitionInfo,
        TemporalError,
    > {
        arbitrary()
    }

    /// The canonical spelling of a zone name, or an error if the name is unknown.
    fn normalize_identifier(&self, ident: &[u8]) -> (r: Result<String, TemporalError>)
        ensures
            name_view(r) == self.normalized(ident@),
    ;

    /// The instants at which the clocks of the zone show `local_datetime`, in
    /// ascending order: none where the local time is skipped, two where it is
    /// repeated.
    fn get_named_tz_epoch_nanoseconds(&self, identifier: &str, local_datetime: IsoDateTime) -> (r:
        Result<Vec<EpochNanoseconds>, TemporalError>)
        requires
            local_datetime.wf(),
        ensures
            instants_view(r) == self.local_candidates(identifier@, local_datetime),
            r matches Ok(found) ==> in_order(found@),
    ;

    /// The offset in force in the zone at the instant, and the instant at
    /// which it took effect.
    fn get_named_tz_offset_nanoseconds(&self, identifier: &str, epoch_nanoseconds: i128) -> (r:
        Result<TimeZoneTransitionInfo, TemporalError>)
        ensures
            r == self.transition_info(identifier@, epoch_nanoseconds),
    ;
}

/// Whether the provider's two views of a zone agree at a local time: an
/// instant is one of those at which the clocks show `local` exactly when the
/// offset in force at the instant leads from the instant to `local`.
pub open spec fn agrees_at<P: TimeZoneProvider>(
    provider: &P,
    identifier: Seq<char>,
    local: IsoDateTime,
) -> bool {
    provider.local_candidates(identifier, local) matches Ok(found) ==> forall|
        instant: EpochNanoseconds,
    |
        #![trigger found.contains(instant)]
        #![trigger provider.transition_info(identifier, instant.0)]
        found.contains(instant) <==> leads_to(
            provider.transition_info(identifier, instant.0),
            instant,
            local,
        )
}

/// Whether the offset of `info`, in force at `instant`, leads from the
/// instant to the local time.
pub open spec fn leads_to(
    info: Result<TimeZoneTransitionInfo, TemporalError>,
    instant: EpochNanoseconds,
    local: IsoDateTime,
) -> bool {
    info matches Ok(info) && instant.0 + info.offset.0 * 1_000_000_000 == local.epoch_ns()
}

/// Whether the provider's two views of a zone agree at every local time.
pub open spec fn agrees<P: TimeZoneProvider>(provider: &P, identifier: Seq<char>) -> bool {
    forall|local: IsoDateTime| #[trigger] agrees_at(provider, identifier, local)
}

/// Whether the transition that the provider reports at an instant lies at
/// or before the instant, and the offset that it reports has been in force
/// without change since.
pub open spec fn steady_since_transition<P: TimeZoneProvider>(
    provider: &P,
    identifier: Seq<char>,
    epoch_nanoseconds: i128,
) -> bool {
    provider.transition_info(identifier, epoch_nanoseconds) matches Ok(info) ==> (
    info.transition_epoch matches Some(seconds) ==> seconds * 1_000_000_000 <= epoch_nanoseconds
        && forall|earlier: i128|
        seconds * 1_000_000_000 <= earlier <= epoch_nanoseconds ==> same_offset(
            #[trigger] provider.transition_info(identifier, earlier),
            info,
        ))
}

/// Whether the zone changes its offset at most once from the instant `from`
/// to the instant `to`, at the instant `switch`: before it the offset is the
/// one at `from`, from it on the one at `to`.
pub open spec fn switches_at<P: TimeZoneProvider>(
    provider: &P,
    identifier: Seq<char>,
    from: i128,
    to: i128,
    switch: i128,
) -> bool {
    &&& provider.transition_info(identifier, from) is Ok
    &&& provider.transition_info(identifier, to) is Ok
    &&& forall|at: i128|
        from <= at <= to ==> same_offset(
            #[trigger] provider.transition_info(identifier, at),
            if at < switch {
                provider.transition_info(identifier, from)->Ok_0
            } else {
                provider.transition_info(identifier, to)->Ok_0
            },
        )
}

/// Whether the zone changes its offset at most once from the instant `from`
/// to the instant `to`.
pub open spec fn switches_once<P: TimeZoneProvider>(
    provider: &P,
    identifier: Seq<char>,
    from: i128,
    to: i128,
) -> bool {
    exists|switch: i128| switches_at(provider, identifier, from, to, switch)
}

/// Whether `then` reports the offset of `info`.
pub open spec fn same_offset(
    then: Result<TimeZoneTransitionInfo, TemporalError>,
    info: TimeZoneTransitionInfo,
) -> bool {
    then matches Ok(then) && then.offset == info.offset
}

} // verus!
