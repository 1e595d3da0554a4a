//! Time zones and fixed offsets from UTC.
//!
//! A `TimeZone` is either a named zone, whose rules a `TimeZoneProvider`
//! knows, or a fixed offset. This module turns a local date-time into the
//! instants at which a zone's clocks show it, picks one of them where there
//! are none or several, and goes the other way from an instant to a local
//! date-time.

use vstd::prelude::*;
use vstd::string::StringSliceAdditionalSpecFns;

use crate::error::TemporalError;
use crate::iso::{IsoDate, IsoDateTime, IsoTime, NS_PER_DAY};
use crate::options::Disambiguation;
use crate::parsers::{
    hour_minute_offset, hour_minute_record, is_hour_minute_text, parse_date_time, parse_identifier, parse_month_day,
    parse_offset, parse_time, parse_year_month, parsed_date_time, parsed_identifier,
    parsed_month_day, parsed_offset, parsed_time, parsed_year_month, FormattableOffset,
    FormattableTime, MinuteOffset, OffsetDesignator, OffsetRecord, Precision, Sign, ZoneParts,
    ZonePartsView, ZoneRecord, ZoneRecordView,
};
use crate::provider::{in_order, TimeZoneProvider};
use crate::unix_time::EpochNanoseconds;

verus! {

/// Nanoseconds in three hours: how far from a skipped local time the clocks
/// are read to find the offsets on either side of the transition.
pub const NS_IN_THREE_HOURS: i128 = 10_800_000_000_000;

/// Nanoseconds in one second.
pub const NS_IN_S: i64 = 1_000_000_000;

/// Nanoseconds in one minute.
pub const NS_IN_MIN: i64 = 60_000_000_000;

/// The whole minutes in `ns` nanoseconds, rounded towards zero.
pub open spec fn whole_minutes(ns: int) -> int {
    if ns >= 0 {
        ns / 60_000_000_000
    } else {
        -((-ns) / 60_000_000_000)
    }
}

/// The whole minutes of an offset as a 16-bit number: zero where they do not
/// fit.
pub open spec fn offset_minutes(ns: int) -> int {
    if i16::MIN <= whole_minutes(ns) <= i16::MAX {
        whole_minutes(ns)
    } else {
        0
    }
}

/// The nanoseconds of an offset in hours and minutes.
pub open spec fn minute_record_ns(record: MinuteOffset) -> int {
    (record.hour * 60 + record.minute) * record.sign.factor() * 60_000_000_000
}

/// The nanoseconds of an offset as it stands in a text. Without seconds the
/// offset is whole minutes. A fraction of more than nine digits is an error.
pub open spec fn record_ns(record: OffsetRecord) -> Result<int, TemporalError> {
    let minutes = 60 * record.hour + record.minute;
    match record.second {
        None => Ok(minutes * record.sign.factor() * 60_000_000_000),
        Some(second) => {
            let whole = (60 * minutes + second) * 1_000_000_000;
            match record.fraction {
                None => Ok(whole * record.sign.factor()),
                Some(fraction) => match fraction.nanoseconds {
                    Some(nanoseconds) => Ok((whole + nanoseconds) * record.sign.factor()),
                    None => Err(TemporalError::InvalidFraction),
                },
            }
        },
    }
}

/// The nanoseconds of the offset that the bytes spell.
///
/// Bytes of the form `+HH:MM` or `-HH:MM` spell those hours and minutes.
/// What else is an offset, and which, is for the parser to say.
pub open spec fn offset_of_text(source: Seq<u8>) -> Result<int, TemporalError> {
    if is_hour_minute_text(source) {
        record_ns(hour_minute_record(source))
    } else {
        match parsed_offset(source) {
            Some(record) => record_ns(record),
            None => Err(TemporalError::InvalidOffset),
        }
    }
}

/// The parts of an offset of `ns` nanoseconds as they are written: sign,
/// hours, minutes, seconds and nanoseconds of its size, and seconds written
/// only where seconds or nanoseconds are not zero. Hours beyond 255 count as
/// zero.
pub open spec fn formattable(ns: int) -> FormattableOffset {
    let total = if ns < 0 {
        -ns
    } else {
        ns
    };
    let seconds = total / 1_000_000_000;
    let minutes = seconds / 60;
    FormattableOffset {
        sign: if ns < 0 {
            Sign::Negative
        } else {
            Sign::Positive
        },
        time: FormattableTime {
            hour: if minutes / 60 <= u8::MAX {
                (minutes / 60) as u8
            } else {
                0
            },
            minute: (minutes % 60) as u8,
            second: (seconds % 60) as u8,
            nanosecond: (total % 1_000_000_000) as u32,
            precision: if total % 60_000_000_000 == 0 {
                Precision::Minute
            } else {
                Precision::Auto
            },
        },
    }
}

/// An offset by its nanoseconds, or the error.
pub open spec fn offset_view(r: Result<UtcOffset, TemporalError>) -> Result<int, TemporalError> {
    match r {
        Ok(offset) => Ok(offset@),
        Err(e) => Err(e),
    }
}

/// A fixed offset from UTC, stored in nanoseconds. East of Greenwich is
/// positive.
#[derive(Debug, Clone, Copy, PartialEq, Eq, Structural)]
pub struct UtcOffset(i64);

impl View for UtcOffset {
    type V = int;

    /// The offset in nanoseconds.
    closed spec fn view(&self) -> int {
        self.0 as int
    }
}

impl UtcOffset {
    /// The range of offsets: what a 16-bit count of minutes reaches.
    pub open spec fn in_range(ns: int) -> bool {
        -32768 * 60_000_000_000 <= ns < 32768 * 60_000_000_000
    }

    /// Every offset lies in the range.
    #[verifier::type_invariant]
    pub open spec fn wf(self) -> bool {
        UtcOffset::in_range(self@)
    }

    /// The offset of so many minutes.
    pub fn from_minutes(minutes: i16) -> (r: Self)
        ensures
            r@ == minutes * 60_000_000_000,
            r.wf(),
    {
        Self((minutes as i64) * NS_IN_MIN)
    }

    /// The offset in whole minutes, rounded towards zero. Minutes that do not
    /// fit 16 bits give zero.
    pub fn minutes(&self) -> (r: i16)
        ensures
            r == offset_minutes(self@),
    {
        let whole: i64 = self.0 / NS_IN_MIN;
        if whole < i16::MIN as i64 || whole > i16::MAX as i64 {
            0
        } else {
            whole as i16
        }
    }

    /// The offset in nanoseconds.
    pub fn nanoseconds(&self) -> (r: i64)
        ensures
            r == self@,
            UtcOffset::in_range(r as int),
    {
        proof {
            use_type_invariant(self);
        }
        self.0
    }

    /// Whether the offset has a part below one minute.
    pub fn is_sub_minute(&self) -> (r: bool)
        ensures
            r == (self@ % 60_000_000_000 != 0),
    {
        self.0 % NS_IN_MIN != 0
    }

    /// The offset of a parsed record of hours and minutes.
    pub fn from_ixdtf_minute_record(record: MinuteOffset) -> (r: Self)
        ensures
            r@ == minute_record_ns(record),
    {
        let minutes: i16 = (record.hour as i16) * 60 + (record.minute as i16);
        let minutes: i16 = match record.sign {
            Sign::Negative => -minutes,
            Sign::Positive => minutes,
        };
        Self::from_minutes(minutes)
    }

    /// The offset of a parsed record.
    pub fn from_ixdtf_record(record: OffsetRecord) -> (r: Result<Self, TemporalError>)
        ensures
            offset_view(r) == record_ns(record),
    {
        let hours: i64 = record.hour as i64;
        let minutes: i64 = 60 * hours + (record.minute as i64);
        let sign: i64 = match record.sign {
            Sign::Negative => -1,
            Sign::Positive => 1,
        };
        match record.second {
            Some(second) => {
                let seconds: i64 = 60 * minutes + (second as i64);
                let mut ns: i64 = seconds * NS_IN_S;
                match record.fraction {
                    Some(fraction) => match fraction.nanoseconds {
                        Some(nanoseconds) => {
                            ns = ns + (nanoseconds as i64);
                        },
                        None => {
                            return Err(TemporalError::InvalidFraction);
                        },
                    },
                    None => {},
                }
                Ok(Self(ns * sign))
            },
            None => Ok(Self(minutes * sign * NS_IN_MIN)),
        }
    }

    /// The offset that the bytes spell.
    pub fn from_utf8(source: &[u8]) -> (r: Result<Self, TemporalError>)
        ensures
            offset_view(r) == offset_of_text(source@),
            r matches Ok(offset) ==> -86_400_000_000_000 < offset@ < 86_400_000_000_000,
    {
        match parse_offset(source) {
            Ok(record) => Self::from_ixdtf_record(record),
            Err(_) => Err(TemporalError::InvalidOffset),
        }
    }

    /// The offset as text: `+HH:MM` or `-HH:MM`, followed by `:SS` where
    /// seconds or their fraction are not zero, and by the fraction as far as
    /// it is not zero.
    pub fn to_string(&self) -> (r: String)
        ensures
            r@ == formattable(self@).text(),
    {
        proof {
            use_type_invariant(self);
        }
        let sign = if self.0 < 0 {
            Sign::Negative
        } else {
            Sign::Positive
        };
        let nanoseconds_total: u64 = if self.0 < 0 {
            (-self.0) as u64
        } else {
            self.0 as u64
        };
        let nanosecond: u32 = match u32::try_from(nanoseconds_total % 1_000_000_000) {
            Ok(value) => value,
            Err(_) => 0,
        };
        let seconds_left: u64 = nanoseconds_total / 1_000_000_000;
        let second: u8 = match u8::try_from(seconds_left % 60) {
            Ok(value) => value,
            Err(_) => 0,
        };
        let minutes_left: u64 = seconds_left / 60;
        let minute: u8 = match u8::try_from(minutes_left % 60) {
            Ok(value) => value,
            Err(_) => 0,
        };
        let hour: u8 = match u8::try_from(minutes_left / 60) {
            Ok(value) => value,
            Err(_) => 0,
        };
        assert((nanosecond == 0 && second == 0) == (nanoseconds_total % 60_000_000_000 == 0)) by {
            assert(nanoseconds_total == seconds_left * 1_000_000_000 + nanosecond);
            assert(seconds_left == minutes_left * 60 + second);
        }
        let precision = if nanosecond == 0 && second == 0 {
            Precision::Minute
        } else {
            Precision::Auto
        };
        let formattable_offset = FormattableOffset {
            sign,
            time: FormattableTime { hour, minute, second, nanosecond, precision },
        };
        formattable_offset.to_string()
    }
}

/// An offset is known by its nanoseconds: two offsets with the same view are
/// the same offset.
pub proof fn lemma_offset_by_view(a: UtcOffset, b: UtcOffset)
    requires
        a@ == b@,
    ensures
        a == b,
{
}

/// A minute-precision offset is its minutes times sixty seconds.
pub proof fn lemma_minute_offset(ns: int)
    requires
        UtcOffset::in_range(ns),
        ns % 60_000_000_000 == 0,
    ensures
        offset_minutes(ns) * 60_000_000_000 == ns,
{
}

/// A time zone: a named zone of the time-zone database, or a fixed offset.
#[derive(Debug)]
pub enum TimeZone {
    /// A zone by its canonical name.
    IanaIdentifier(String),
    /// A fixed offset from UTC.
    UtcOffset(UtcOffset),
}

/// What a `TimeZone` stands for: the text of a name, or the nanoseconds of an
/// offset.
pub enum TimeZoneView {
    IanaIdentifier(Seq<char>),
    UtcOffset(int),
}

impl View for TimeZone {
    type V = TimeZoneView;

    open spec fn view(&self) -> TimeZoneView {
        match self {
            TimeZone::IanaIdentifier(name) => TimeZoneView::IanaIdentifier(name@),
            TimeZone::UtcOffset(offset) => TimeZoneView::UtcOffset(offset@),
        }
    }
}

impl TimeZoneView {
    /// The zone `UTC`, by name.
    pub open spec fn utc() -> TimeZoneView {
        TimeZoneView::IanaIdentifier("UTC"@)
    }

    /// The text that identifies the zone: the name, or the offset as
    /// `UtcOffset::to_string` writes it.
    pub open spec fn identifier(self) -> Seq<char> {
        match self {
            TimeZoneView::IanaIdentifier(name) => name,
            TimeZoneView::UtcOffset(ns) => formattable(ns).text(),
        }
    }

    /// The zone of a parsed record: a name in the spelling of the provider,
    /// or an offset.
    pub open spec fn of_record<P: TimeZoneProvider>(record: ZoneRecordView, provider: &P) -> Result<
        TimeZoneView,
        TemporalError,
    > {
        match record {
            ZoneRecordView::Name(name) => match provider.normalized(name) {
                Ok(canonical) => Ok(TimeZoneView::IanaIdentifier(canonical)),
                Err(e) => Err(e),
            },
            ZoneRecordView::Offset(offset) => Ok(
                TimeZoneView::UtcOffset(minute_record_ns(offset)),
            ),
            ZoneRecordView::Other => Err(TemporalError::InvariantViolation),
        }
    }

    /// The zone that an identifier names: a zone name in the spelling of the
    /// provider, or an offset in hours and minutes. A text of the form
    /// `+HH:MM` or `-HH:MM` names those hours and minutes. What else is an
    /// identifier, and of which kind, is for the parser to say.
    pub open spec fn of_identifier<P: TimeZoneProvider>(text: Seq<char>, provider: &P) -> Result<
        TimeZoneView,
        TemporalError,
    > {
        if is_hour_minute_text(vstd::utf8::encode_utf8(text)) {
            Ok(
                TimeZoneView::UtcOffset(
                    minute_record_ns(hour_minute_offset(vstd::utf8::encode_utf8(text))),
                ),
            )
        } else {
            match parsed_identifier(text) {
                Some(ZoneRecordView::Other) | None => Err(
                    TemporalError::InvalidTimeZoneIdentifier,
                ),
                Some(record) => TimeZoneView::of_record(record, provider),
            }
        }
    }

    /// The zone that the parts of a date-time string give: the zone in
    /// square brackets where there is one, else `UTC` for the letter Z, else
    /// the offset where it is in hours and minutes.
    pub open spec fn of_parts<P: TimeZoneProvider>(parts: ZonePartsView, provider: &P) -> Option<
        TimeZoneView,
    > {
        match parts.annotation {
            Some(record) => match TimeZoneView::of_record(record, provider) {
                Ok(zone) => Some(zone),
                Err(_) => None,
            },
            None => match parts.offset {
                Some(OffsetDesignator::Z) => Some(TimeZoneView::utc()),
                Some(OffsetDesignator::MinutePrecision(offset)) => Some(
                    TimeZoneView::UtcOffset(minute_record_ns(offset)),
                ),
                _ => None,
            },
        }
    }

    /// What a text says of its time zone when read as a date-time, or else
    /// as a time, or else as a year and month, or else as a month and day.
    pub open spec fn parts_of_text(text: Seq<char>) -> Option<ZonePartsView> {
        match parsed_date_time(text) {
            Some(parts) => Some(parts),
            None => match parsed_time(text) {
                Some(parts) => Some(parts),
                None => match parsed_year_month(text) {
                    Some(parts) => Some(parts),
                    None => parsed_month_day(text),
                },
            },
        }
    }

    /// The zone of a text that is not an identifier.
    pub open spec fn of_allowed_formats<P: TimeZoneProvider>(
        text: Seq<char>,
        provider: &P,
    ) -> Option<TimeZoneView> {
        match TimeZoneView::parts_of_text(text) {
            Some(parts) => TimeZoneView::of_parts(parts, provider),
            None => None,
        }
    }

    /// The zone of a text: the zone that it names as an identifier, or else
    /// the zone that it carries as a date-time string.
    pub open spec fn of_text<P: TimeZoneProvider>(text: Seq<char>, provider: &P) -> Result<
        TimeZoneView,
        TemporalError,
    > {
        match TimeZoneView::of_identifier(text, provider) {
            Ok(zone) => Ok(zone),
            Err(_) => match TimeZoneView::of_allowed_formats(text, provider) {
                Some(zone) => Ok(zone),
                None => Err(TemporalError::InvalidTimeZoneString),
            },
        }
    }

    /// The zone of a text that is an offset.
    pub open spec fn of_offset_text(source: Seq<u8>) -> Result<TimeZoneView, TemporalError> {
        match offset_of_text(source) {
            Ok(ns) => Ok(TimeZoneView::UtcOffset(ns)),
            Err(e) => Err(e),
        }
    }

    /// A fixed offset is less than a day.
    pub open spec fn under_a_day(self) -> bool {
        self matches TimeZoneView::UtcOffset(ns) ==> -86_400_000_000_000 < ns
            < 86_400_000_000_000
    }

    /// Whether the provider knows the zone. It knows every fixed offset.
    pub open spec fn known_to<P: TimeZoneProvider>(self, provider: &P) -> bool {
        match self {
            TimeZoneView::IanaIdentifier(name) => provider.normalized(
                vstd::utf8::encode_utf8(name),
            ) is Ok,
            TimeZoneView::UtcOffset(_) => true,
        }
    }

    /// A fixed offset has no part below one minute, so that it can serve to
    /// resolve local times.
    pub open spec fn minute_precise(self) -> bool {
        match self {
            TimeZoneView::IanaIdentifier(_) => true,
            TimeZoneView::UtcOffset(ns) => ns % 60_000_000_000 == 0,
        }
    }

    /// The offset from UTC, in nanoseconds, in force at the instant `epoch`.
    pub open spec fn offset_at<P: TimeZoneProvider>(self, epoch: i128, provider: &P) -> Result<
        int,
        TemporalError,
    > {
        match self {
            TimeZoneView::UtcOffset(ns) => Ok(ns),
            TimeZoneView::IanaIdentifier(name) => match provider.transition_info(name, epoch) {
                Ok(info) => Ok(info.offset.0 * 1_000_000_000),
                Err(e) => Err(e),
            },
        }
    }

    /// The local date-time that the zone's clocks show at `instant`.
    pub open spec fn local_time_at<P: TimeZoneProvider>(
        self,
        instant: EpochNanoseconds,
        provider: &P,
    ) -> Result<IsoDateTime, TemporalError> {
        match self.offset_at(instant.0, provider) {
            Ok(offset) => Ok(IsoDateTime::at(instant.0 + narrowed_offset(offset))),
            Err(e) => Err(e),
        }
    }

    /// The instants at which the zone's clocks show `local`, before any of
    /// them is examined.
    ///
    /// A fixed offset gives the one instant that lies the offset before the
    /// local time read as UTC. A named zone gives what the provider answers.
    /// A date outside the range of days is an error: for a fixed offset the
    /// date of the instant, for a named zone the local date.
    pub open spec fn candidates<P: TimeZoneProvider>(
        self,
        local: IsoDateTime,
        provider: &P,
    ) -> Result<Seq<EpochNanoseconds>, TemporalError> {
        match self {
            TimeZoneView::UtcOffset(ns) => {
                let utc = local.epoch_ns() - offset_minutes(ns) * 60_000_000_000;
                if IsoDate::in_day_range(utc / (NS_PER_DAY as int)) {
                    Ok(seq![EpochNanoseconds(utc as i128)])
                } else {
                    Err(TemporalError::DateOutOfRange)
                }
            },
            TimeZoneView::IanaIdentifier(name) => {
                if IsoDate::in_day_range(local.date.epoch_days()) {
                    provider.local_candidates(name, local)
                } else {
                    Err(TemporalError::DateOutOfRange)
                }
            },
        }
    }

    /// The instants at which the zone's clocks show `local`: the candidates,
    /// unless one of them lies outside the range of instants.
    pub open spec fn possible_instants<P: TimeZoneProvider>(
        self,
        local: IsoDateTime,
        provider: &P,
    ) -> Result<Seq<EpochNanoseconds>, TemporalError> {
        match self.candidates(local, provider) {
            Err(e) => Err(e),
            Ok(found) => if all_valid(found) {
                Ok(found)
            } else {
                Err(TemporalError::InstantOutOfRange)
            },
        }
    }

    /// Whether `instant` is one of the instants at which the zone's clocks
    /// show `local`.
    pub open spec fn shows<P: TimeZoneProvider>(
        self,
        local: IsoDateTime,
        instant: EpochNanoseconds,
        provider: &P,
    ) -> bool {
        self.possible_instants(local, provider) matches Ok(found) && found.contains(instant)
    }

    /// The one instant that stands for `local`, given the instants
    /// `candidates` at which the zone's clocks show it.
    ///
    /// One candidate is the answer. Of several, `Compatible` and `Earlier`
    /// take the first and `Later` the last. With none the local time is
    /// skipped and `resolve_gap` decides. `Reject` accepts one candidate only.
    pub open spec fn resolve<P: TimeZoneProvider>(
        self,
        candidates: Seq<EpochNanoseconds>,
        local: IsoDateTime,
        policy: Disambiguation,
        provider: &P,
    ) -> Result<EpochNanoseconds, TemporalError> {
        if candidates.len() == 1 {
            Ok(candidates[0])
        } else if candidates.len() != 0 {
            match policy {
                Disambiguation::Compatible | Disambiguation::Earlier => Ok(candidates[0]),
                Disambiguation::Later => Ok(candidates.last()),
                Disambiguation::Reject => Err(TemporalError::AmbiguousTime),
            }
        } else if policy == Disambiguation::Reject {
            Err(TemporalError::AmbiguousTime)
        } else {
            self.resolve_gap(local, policy, provider)
        }
    }

    /// The offsets in force three hours before and three hours after `local`,
    /// read off the one instant that each of the two local times has.
    pub open spec fn gap_offsets<P: TimeZoneProvider>(
        self,
        local: IsoDateTime,
        provider: &P,
    ) -> Result<(int, int), TemporalError> {
        match IsoDateTime::spec_add_nanoseconds(local, -NS_IN_THREE_HOURS) {
            Err(e) => Err(e),
            Ok(before) => match IsoDateTime::spec_add_nanoseconds(local, NS_IN_THREE_HOURS as int) {
                Err(e) => Err(e),
                Ok(after) => match self.possible_instants(before, provider) {
                    Err(e) => Err(e),
                    Ok(before_found) => if before_found.len() != 1 {
                        Err(TemporalError::InvariantViolation)
                    } else {
                        match self.possible_instants(after, provider) {
                            Err(e) => Err(e),
                            Ok(after_found) => if after_found.len() != 1 {
                                Err(TemporalError::InvariantViolation)
                            } else {
                                match self.offset_at(before_found[0].0, provider) {
                                    Err(e) => Err(e),
                                    Ok(offset_before) => match self.offset_at(
                                        after_found[0].0,
                                        provider,
                                    ) {
                                        Err(e) => Err(e),
                                        Ok(offset_after) => Ok((offset_before, offset_after)),
                                    },
                                }
                            },
                        }
                    },
                },
            },
        }
    }

    /// The local time that stands in for the skipped `local`: moved back by
    /// the width of the gap for `Earlier`, forward for the other policies.
    pub open spec fn gap_target(local: IsoDateTime, policy: Disambiguation, width: int) -> Result<
        IsoDateTime,
        TemporalError,
    > {
        IsoDateTime::spec_add_nanoseconds(
            local,
            if policy == Disambiguation::Earlier {
                -width
            } else {
                width
            },
        )
    }

    /// The instant that stands for a skipped `local`, for a policy other
    /// than `Reject`.
    ///
    /// The width of the gap is the offset after it less the offset before it.
    /// The local time is moved by that width and resolved again: `Earlier`
    /// takes the first instant of the moved time, the others the last.
    pub open spec fn resolve_gap<P: TimeZoneProvider>(
        self,
        local: IsoDateTime,
        policy: Disambiguation,
        provider: &P,
    ) -> Result<EpochNanoseconds, TemporalError> {
        match self.gap_offsets(local, provider) {
            Err(e) => Err(e),
            Ok((offset_before, offset_after)) => match TimeZoneView::gap_target(
                local,
                policy,
                offset_after - offset_before,
            ) {
                Err(e) => Err(e),
                Ok(target) => match self.possible_instants(target, provider) {
                    Err(e) => Err(e),
                    Ok(found) => if found.len() == 0 {
                        Err(TemporalError::InvariantViolation)
                    } else if policy == Disambiguation::Earlier {
                        Ok(found[0])
                    } else {
                        Ok(found.last())
                    },
                },
            },
        }
    }

    /// The instant that stands for `local` under `policy`.
    pub open spec fn instant_for<P: TimeZoneProvider>(
        self,
        local: IsoDateTime,
        policy: Disambiguation,
        provider: &P,
    ) -> Result<EpochNanoseconds, TemporalError> {
        match self.possible_instants(local, provider) {
            Err(e) => Err(e),
            Ok(found) => self.resolve(found, local, policy, provider),
        }
    }

    /// The instant at which `date` begins in the zone.
    ///
    /// That is the first instant of local midnight. Where midnight is
    /// skipped, it is the instant of the transition that skipped it, as the
    /// provider reports it for three o'clock of that day, unless that lies
    /// outside the range of instants.
    pub open spec fn start_of_day<P: TimeZoneProvider>(self, date: IsoDate, provider: &P) -> Result<
        EpochNanoseconds,
        TemporalError,
    > {
        match self.possible_instants(IsoDateTime::spec_on(date, 0), provider) {
            Err(e) => Err(e),
            Ok(found) => if found.len() > 0 {
                Ok(found[0])
            } else {
                match self {
                    TimeZoneView::UtcOffset(_) => Err(TemporalError::InvariantViolation),
                    TimeZoneView::IanaIdentifier(name) => match self.possible_instants(
                        IsoDateTime::spec_on(date, 3),
                        provider,
                    ) {
                        Err(e) => Err(e),
                        Ok(later) => if later.len() == 0 {
                            Err(TemporalError::StartOfDayUndetermined)
                        } else {
                            match provider.transition_info(name, later[0].0) {
                                Err(e) => Err(e),
                                Ok(info) => match info.transition_epoch {
                                    Some(seconds) => transition_instant(seconds),
                                    None => Err(TemporalError::StartOfDayUndetermined),
                                },
                            }
                        },
                    },
                }
            },
        }
    }
}

/// An offset in nanoseconds as a 64-bit number: zero where it does not fit.
pub open spec fn narrowed_offset(offset: int) -> int {
    if i64::MIN <= offset <= i64::MAX {
        offset
    } else {
        0
    }
}

/// A zone by its view, or the error.
pub open spec fn zone_view(r: Result<TimeZone, TemporalError>) -> Result<
    TimeZoneView,
    TemporalError,
> {
    match r {
        Ok(zone) => Ok(zone@),
        Err(e) => Err(e),
    }
}

/// A zone by its view, or nothing.
pub open spec fn found_zone_view(r: Option<TimeZone>) -> Option<TimeZoneView> {
    match r {
        Some(zone) => Some(zone@),
        None => None,
    }
}

/// The instant of a transition that a provider reports in seconds since the
/// epoch: an error where it lies outside the range of instants.
pub open spec fn transition_instant(seconds: i64) -> Result<EpochNanoseconds, TemporalError> {
    if EpochNanoseconds((seconds * 1_000_000_000) as i128).spec_is_valid() {
        Ok(EpochNanoseconds((seconds * 1_000_000_000) as i128))
    } else {
        Err(TemporalError::InstantOutOfRange)
    }
}

/// Every instant of the sequence lies within the range of instants.
pub open spec fn all_valid(instants: Seq<EpochNanoseconds>) -> bool {
    forall|i: int| 0 <= i < instants.len() ==> (#[trigger] instants[i]).spec_is_valid()
}

/// A 128-bit number as a 64-bit number: the number itself where it fits,
/// nothing where it does not.
pub fn i128_to_i64(n: i128) -> (r: Option<i64>)
    ensures
        r == if i64::MIN <= n <= i64::MAX {
            Some(n as i64)
        } else {
            None
        },
{
    if n < i64::MIN as i128 || n > i64::MAX as i128 {
        None
    } else {
        Some(n as i64)
    }
}

impl Default for TimeZone {
    /// The zone `UTC`.
    fn default() -> (r: Self)
        ensures
            r@ == TimeZoneView::utc(),
    {
        TimeZone::IanaIdentifier("UTC".to_owned())
    }
}

impl PartialEq for TimeZone {
    fn eq(&self, other: &Self) -> (r: bool) {
        match (self, other) {
            (TimeZone::IanaIdentifier(a), TimeZone::IanaIdentifier(b)) => a.eq(b),
            (TimeZone::UtcOffset(a), TimeZone::UtcOffset(b)) => a.nanoseconds() == b.nanoseconds(),
            _ => false,
        }
    }
}

impl vstd::std_specs::cmp::PartialEqSpecImpl for TimeZone {
    open spec fn obeys_eq_spec() -> bool {
        true
    }

    /// Two zones are equal when they are of one kind and have the same name
    /// or the same offset.
    open spec fn eq_spec(&self, other: &Self) -> bool {
        self@ == other@
    }
}

impl Eq for TimeZone {

}

impl core::str::FromStr for UtcOffset {
    type Err = TemporalError;

    fn from_str(s: &str) -> (r: Result<Self, Self::Err>)
        ensures
            offset_view(r) == offset_of_text(s.spec_bytes()),
            r matches Ok(offset) ==> -86_400_000_000_000 < offset@ < 86_400_000_000_000,
    {
        Self::from_utf8(s.as_bytes())
    }
}

impl Clone for TimeZone {
    fn clone(&self) -> (r: Self)
        ensures
            r@ == self@,
    {
        match self {
            TimeZone::IanaIdentifier(name) => TimeZone::IanaIdentifier(name.clone()),
            TimeZone::UtcOffset(offset) => TimeZone::UtcOffset(*offset),
        }
    }
}

/// The zone that the parts of a date-time string give: the zone in square
/// brackets where there is one, else `UTC` for the letter Z, else the offset
/// where it is in hours and minutes.
pub fn zone_of_parts<P: TimeZoneProvider>(parts: ZoneParts, provider: &P) -> (r: Option<TimeZone>)
    ensures
        found_zone_view(r) == TimeZoneView::of_parts(parts@, provider),
        parts@.in_clock_range() ==> (r matches Some(zone) ==> zone@.under_a_day()),
{
    match parts.annotation {
        Some(annotation) => match TimeZone::from_time_zone_record(annotation, provider) {
            Ok(zone) => Some(zone),
            Err(_) => None,
        },
        None => match parts.offset {
            Some(OffsetDesignator::Z) => Some(TimeZone::default()),
            Some(OffsetDesignator::MinutePrecision(offset)) => Some(
                TimeZone::UtcOffset(UtcOffset::from_ixdtf_minute_record(offset)),
            ),
            _ => None,
        },
    }
}

/// The zone of a text that is not an identifier: the text is read as a
/// date-time, or else as a time, or else as a year and month, or else as a
/// month and day, and the zone is the one it carries.
pub fn parse_allowed_timezone_formats<P: TimeZoneProvider>(s: &str, provider: &P) -> (r: Option<
    TimeZone,
>)
    ensures
        found_zone_view(r) == TimeZoneView::of_allowed_formats(s@, provider),
        r matches Some(zone) ==> zone@.under_a_day(),
{
    let parts = match parse_date_time(s) {
        Ok(parts) => parts,
        Err(_) => match parse_time(s) {
            Ok(parts) => parts,
            Err(_) => match parse_year_month(s) {
                Ok(parts) => parts,
                Err(_) => match parse_month_day(s) {
                    Ok(parts) => parts,
                    Err(_) => {
                        return None;
                    },
                },
            },
        },
    };
    zone_of_parts(parts, provider)
}

impl TimeZone {
    /// The zone of a parsed record: a name in the spelling of the provider,
    /// or an offset. A record of unknown form is an invariant violation.
    pub fn from_time_zone_record<P: TimeZoneProvider>(record: ZoneRecord, provider: &P) -> (r:
        Result<Self, TemporalError>)
        ensures
            zone_view(r) == TimeZoneView::of_record(record@, provider),
            record@.in_clock_range() ==> (r matches Ok(zone) ==> zone@.under_a_day()),
    {
        match record {
            ZoneRecord::Name(name) => match provider.normalize_identifier(name.as_slice()) {
                Ok(canonical) => Ok(TimeZone::IanaIdentifier(canonical)),
                Err(e) => Err(e),
            },
            ZoneRecord::Offset(offset_record) => {
                let offset = UtcOffset::from_ixdtf_minute_record(offset_record);
                Ok(TimeZone::UtcOffset(offset))
            },
            ZoneRecord::Other => Err(TemporalError::InvariantViolation),
        }
    }

    /// The zone that an identifier names: a zone name, which the provider
    /// puts into its canonical spelling, or an offset in hours and minutes.
    pub fn try_from_identifier_str_with_provider<P: TimeZoneProvider>(
        identifier: &str,
        provider: &P,
    ) -> (r: Result<Self, TemporalError>)
        ensures
            zone_view(r) == TimeZoneView::of_identifier(identifier@, provider),
            r matches Ok(zone) ==> zone@.under_a_day(),
    {
        match parse_identifier(identifier) {
            Ok(ZoneRecord::Other) | Err(_) => Err(TemporalError::InvalidTimeZoneIdentifier),
            Ok(record) => Self::from_time_zone_record(record, provider),
        }
    }

    /// The zone of a text: the zone that it names as an identifier, or else
    /// the zone that it carries as a date-time string.
    pub fn try_from_str_with_provider<P: TimeZoneProvider>(src: &str, provider: &P) -> (r: Result<
        Self,
        TemporalError,
    >)
        ensures
            zone_view(r) == TimeZoneView::of_text(src@, provider),
            r matches Ok(zone) ==> zone@.under_a_day(),
    {
        match Self::try_from_identifier_str_with_provider(src, provider) {
            Ok(timezone) => {
                return Ok(timezone);
            },
            Err(_) => {},
        }
        match parse_allowed_timezone_formats(src, provider) {
            Some(timezone) => Ok(timezone),
            None => Err(TemporalError::InvalidTimeZoneString),
        }
    }

    /// The fixed-offset zone that the bytes spell as an offset.
    pub fn try_from_offset_str(ident: &[u8]) -> (r: Result<Self, TemporalError>)
        ensures
            zone_view(r) == TimeZoneView::of_offset_text(ident@),
            r matches Ok(zone) ==> zone@.under_a_day(),
    {
        match UtcOffset::from_utf8(ident) {
            Ok(offset) => Ok(TimeZone::UtcOffset(offset)),
            Err(e) => Err(e),
        }
    }

    /// Whether the provider knows this zone.
    pub fn is_valid<P: TimeZoneProvider>(&self, provider: &P) -> (r: bool)
        ensures
            r == self@.known_to(provider),
    {
        match self {
            TimeZone::IanaIdentifier(name) => {
                provider.normalize_identifier(name.as_str().as_bytes()).is_ok()
            },
            TimeZone::UtcOffset(_) => true,
        }
    }

    /// The text that identifies the zone.
    pub fn identifier(&self) -> (r: String)
        ensures
            r@ == self@.identifier(),
    {
        match self {
            TimeZone::IanaIdentifier(s) => s.clone(),
            TimeZone::UtcOffset(offset) => offset.to_string(),
        }
    }

    /// The local date-time that the zone's clocks show at `instant`. An
    /// offset that does not fit 64 bits counts as zero.
    pub fn get_iso_datetime_for<P: TimeZoneProvider>(
        &self,
        instant: &EpochNanoseconds,
        provider: &P,
    ) -> (r: Result<IsoDateTime, TemporalError>)
        requires
            instant.spec_is_valid(),
        ensures
            r == self@.local_time_at(*instant, provider),
            r matches Ok(local) ==> local.wf() && local.epoch_ns() == instant.0 + narrowed_offset(
                self@.offset_at(instant.0, provider)->Ok_0,
            ),
    {
        let nanos: i128 = match self.get_offset_nanos_for(instant.as_i128(), provider) {
            Ok(nanos) => nanos,
            Err(e) => {
                return Err(e);
            },
        };
        let offset: i64 = match i128_to_i64(nanos) {
            Some(offset) => offset,
            None => 0,
        };
        Ok(IsoDateTime::from_epoch_nanos(instant, offset))
    }

    /// The offset from UTC, in nanoseconds, in force at the instant
    /// `utc_epoch`.
    pub fn get_offset_nanos_for<P: TimeZoneProvider>(&self, utc_epoch: i128, provider: &P) -> (r:
        Result<i128, TemporalError>)
        ensures
            match (r, self@.offset_at(utc_epoch, provider)) {
                (Ok(ns), Ok(offset)) => ns == offset,
                (Err(e), Err(expected)) => e == expected,
                _ => false,
            },
            r matches Ok(ns) ==> i64::MIN * 1_000_000_000 <= ns <= i64::MAX * 1_000_000_000,
    {
        match self {
            TimeZone::UtcOffset(offset) => Ok(offset.nanoseconds() as i128),
            TimeZone::IanaIdentifier(identifier) => {
                match provider.get_named_tz_offset_nanoseconds(identifier.as_str(), utc_epoch) {
                    Ok(transition) => Ok((transition.offset.0 as i128) * 1_000_000_000),
                    Err(e) => Err(e),
                }
            },
        }
    }

    /// The instants at which the zone's clocks show `iso`.
    pub fn get_possible_epoch_ns_for<P: TimeZoneProvider>(
        &self,
        iso: IsoDateTime,
        provider: &P,
    ) -> (r: Result<Vec<EpochNanoseconds>, TemporalError>)
        requires
            iso.wf(),
            self@.minute_precise(),
        ensures
            crate::provider::instants_view(r) == self@.possible_instants(iso, provider),
            r matches Ok(found) ==> all_valid(found@) && in_order(found@),
    {
        let possible_nanoseconds: Vec<EpochNanoseconds> = match self {
            TimeZone::UtcOffset(offset) => {
                proof {
                    use_type_invariant(offset);
                }
                let balanced = match IsoDateTime::balance(
                    iso.date.year,
                    iso.date.month as i32,
                    iso.date.day as i32,
                    iso.time.hour as i64,
                    (iso.time.minute as i64) - (offset.minutes() as i64),
                    iso.time.second as i64,
                    iso.time.millisecond as i64,
                    iso.time.microsecond as i64,
                    iso.time.nanosecond as i128,
                ) {
                    Ok(balanced) => balanced,
                    Err(e) => {
                        return Err(e);
                    },
                };
                proof {
                    crate::iso::lemma_epoch_ns_days(balanced);
                }
                match balanced.date.is_valid_day_range() {
                    Ok(()) => {},
                    Err(e) => {
                        return Err(e);
                    },
                }
                let epoch_ns = balanced.as_nanoseconds();
                let mut found: Vec<EpochNanoseconds> = Vec::new();
                found.push(epoch_ns);
                assert(found@ =~= seq![epoch_ns]);
                found
            },
            TimeZone::IanaIdentifier(identifier) => {
                match iso.date.is_valid_day_range() {
                    Ok(()) => {},
                    Err(e) => {
                        return Err(e);
                    },
                }
                match provider.get_named_tz_epoch_nanoseconds(identifier.as_str(), iso) {
                    Ok(found) => found,
                    Err(e) => {
                        return Err(e);
                    },
                }
            },
        };
        let mut i: usize = 0;
        while i < possible_nanoseconds.len()
            invariant
                i <= possible_nanoseconds.len(),
                self@.candidates(iso, provider) == Ok::<Seq<EpochNanoseconds>, TemporalError>(
                    possible_nanoseconds@,
                ),
                forall|j: int| 0 <= j < i ==> (#[trigger] possible_nanoseconds@[j]).spec_is_valid(),
            decreases possible_nanoseconds.len() - i,
        {
            match possible_nanoseconds[i].check_validity() {
                Ok(()) => {},
                Err(e) => {
                    return Err(e);
                },
            }
            i = i + 1;
        }
        Ok(possible_nanoseconds)
    }

    /// The instant that stands for `iso` under `disambiguation`.
    pub fn get_epoch_nanoseconds_for<P: TimeZoneProvider>(
        &self,
        iso: IsoDateTime,
        disambiguation: Disambiguation,
        provider: &P,
    ) -> (r: Result<EpochNanoseconds, TemporalError>)
        requires
            iso.wf(),
            self@.minute_precise(),
        ensures
            r == self@.instant_for(iso, disambiguation, provider),
            r matches Ok(instant) ==> instant.spec_is_valid(),
    {
        match self.get_possible_epoch_ns_for(iso, provider) {
            Ok(possible_nanos) => self.disambiguate_possible_epoch_nanos(
                possible_nanos,
                iso,
                disambiguation,
                provider,
            ),
            Err(e) => Err(e),
        }
    }

    /// The one instant that stands for `iso`, given the instants `nanos` at
    /// which the zone's clocks show it.
    pub fn disambiguate_possible_epoch_nanos<P: TimeZoneProvider>(
        &self,
        nanos: Vec<EpochNanoseconds>,
        iso: IsoDateTime,
        disambiguation: Disambiguation,
        provider: &P,
    ) -> (r: Result<EpochNanoseconds, TemporalError>)
        requires
            iso.wf(),
            self@.minute_precise(),
        ensures
            r == self@.resolve(nanos@, iso, disambiguation, provider),
            all_valid(nanos@) ==> (r matches Ok(instant) ==> instant.spec_is_valid()),
    {
        let n: usize = nanos.len();
        if n == 1 {
            return Ok(nanos[0]);
        } else if n != 0 {
            match disambiguation {
                Disambiguation::Compatible | Disambiguation::Earlier => {
                    return Ok(nanos[0]);
                },
                Disambiguation::Later => {
                    return Ok(nanos[n - 1]);
                },
                Disambiguation::Reject => {
                    return Err(TemporalError::AmbiguousTime);
                },
            }
        }
        match disambiguation {
            Disambiguation::Reject => {
                return Err(TemporalError::AmbiguousTime);
            },
            _ => {},
        }
        // The local time is skipped. Three hours to either side lie clear of
        // any one transition: the offsets there give the width of the gap.
        let before = match iso.add_nanoseconds(-NS_IN_THREE_HOURS) {
            Ok(before) => before,
            Err(e) => {
                return Err(e);
            },
        };
        let after = match iso.add_nanoseconds(NS_IN_THREE_HOURS) {
            Ok(after) => after,
            Err(e) => {
                return Err(e);
            },
        };
        let before_possible = match self.get_possible_epoch_ns_for(before, provider) {
            Ok(found) => found,
            Err(e) => {
                return Err(e);
            },
        };
        if before_possible.len() != 1 {
            return Err(TemporalError::InvariantViolation);
        }
        let after_possible = match self.get_possible_epoch_ns_for(after, provider) {
            Ok(found) => found,
            Err(e) => {
                return Err(e);
            },
        };
        if after_possible.len() != 1 {
            return Err(TemporalError::InvariantViolation);
        }
        let offset_before: i128 = match self.get_offset_nanos_for(before_possible[0].0, provider) {
            Ok(offset) => offset,
            Err(e) => {
                return Err(e);
            },
        };
        let offset_after: i128 = match self.get_offset_nanos_for(after_possible[0].0, provider) {
            Ok(offset) => offset,
            Err(e) => {
                return Err(e);
            },
        };
        let nanoseconds: i128 = offset_after - offset_before;
        let earlier: bool = match disambiguation {
            Disambiguation::Earlier => true,
            _ => false,
        };
        let shift: i128 = if earlier {
            -nanoseconds
        } else {
            nanoseconds
        };
        let target = match iso.add_nanoseconds(shift) {
            Ok(target) => target,
            Err(e) => {
                return Err(e);
            },
        };
        let possible = match self.get_possible_epoch_ns_for(target, provider) {
            Ok(found) => found,
            Err(e) => {
                return Err(e);
            },
        };
        let n: usize = possible.len();
        if n == 0 {
            return Err(TemporalError::InvariantViolation);
        }
        if earlier {
            Ok(possible[0])
        } else {
            Ok(possible[n - 1])
        }
    }

    /// The instant at which the day `iso_date` begins in the zone.
    pub fn get_start_of_day<P: TimeZoneProvider>(&self, iso_date: &IsoDate, provider: &P) -> (r:
        Result<EpochNanoseconds, TemporalError>)
        requires
            iso_date.wf(),
            self@.minute_precise(),
        ensures
            r == self@.start_of_day(*iso_date, provider),
            r matches Ok(instant) ==> instant.spec_is_valid(),
    {
        let iso = IsoDateTime::new_unchecked(*iso_date, IsoTime::at_hour(0));
        let possible_nanos = match self.get_possible_epoch_ns_for(iso, provider) {
            Ok(found) => found,
            Err(e) => {
                return Err(e);
            },
        };
        if possible_nanos.len() > 0 {
            return Ok(possible_nanos[0]);
        }
        let identifier: &String = match self {
            TimeZone::IanaIdentifier(identifier) => identifier,
            TimeZone::UtcOffset(_) => {
                return Err(TemporalError::InvariantViolation);
            },
        };
        // Midnight is skipped. Three o'clock lies behind the transition that
        // skipped it: the day begins at the instant of that transition.
        let after = IsoDateTime::new_unchecked(*iso_date, IsoTime::at_hour(3));
        let after_possible = match self.get_possible_epoch_ns_for(after, provider) {
            Ok(found) => found,
            Err(e) => {
                return Err(e);
            },
        };
        if after_possible.len() == 0 {
            return Err(TemporalError::StartOfDayUndetermined);
        }
        let after_epoch = after_possible[0];
        match provider.get_named_tz_offset_nanoseconds(identifier.as_str(), after_epoch.0) {
            Ok(info) => match info.transition_epoch {
                Some(transition_epoch) => EpochNanoseconds::try_from_i128(
                    (transition_epoch as i128) * 1_000_000_000,
                ),
                None => Err(TemporalError::StartOfDayUndetermined),
            },
            Err(e) => Err(e),
        }
    }
}

} // verus!
