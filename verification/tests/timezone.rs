use temporal_timezone::error::TemporalError;
use temporal_timezone::iso::{IsoDate, IsoDateTime, IsoTime};
use temporal_timezone::options::Disambiguation;
use temporal_timezone::parsers::{
    MinuteOffset, OffsetDesignator, Sign, ZoneParts, ZoneRecord,
};
use temporal_timezone::provider::{TimeZoneProvider, TimeZoneTransitionInfo, UtcOffsetSeconds};
use temporal_timezone::timezone::{
    i128_to_i64, parse_allowed_timezone_formats, zone_of_parts, TimeZone, UtcOffset,
};
use temporal_timezone::unix_time::EpochNanoseconds;

const NS: i128 = 1_000_000_000;

/// 2017-03-12T07:00:00Z: clocks in New York go from 02:00 to 03:00.
const NEW_YORK_SPRING: i64 = 1_489_302_000;

/// 2017-11-05T06:00:00Z: clocks in New York go from 02:00 back to 01:00.
const NEW_YORK_FALL: i64 = 1_509_861_600;

/// 2018-11-04T03:00:00Z: clocks in Sao Paulo go from 00:00 to 01:00.
const SAO_PAULO_SPRING: i64 = 1_541_300_400;

struct Zone {
    name: &'static str,
    initial: i64,
    transitions: Vec<(i64, i64)>,
}

/// A small time-zone database: for each zone the offset it starts with and
/// the instants at which the offset changes.
struct Table {
    zones: Vec<Zone>,
}

impl Table {
    fn new() -> Self {
        Table {
            zones: vec![
                Zone { name: "UTC", initial: 0, transitions: vec![] },
                Zone {
                    name: "America/New_York",
                    initial: -18_000,
                    transitions: vec![(NEW_YORK_SPRING, -14_400), (NEW_YORK_FALL, -18_000)],
                },
                Zone {
                    name: "America/Sao_Paulo",
                    initial: -10_800,
                    transitions: vec![(SAO_PAULO_SPRING, -7_200)],
                },
                Zone { name: "Etc/Far", initial: 10_000_000_000, transitions: vec![] },
            ],
        }
    }

    fn zone(&self, identifier: &str) -> Result<&Zone, TemporalError> {
        self.zones
            .iter()
            .find(|zone| zone.name == identifier)
            .ok_or(TemporalError::UnknownTimeZone)
    }
}

impl TimeZoneProvider for Table {
    fn normalize_identifier(&self, ident: &[u8]) -> Result<String, TemporalError> {
        self.zones
            .iter()
            .find(|zone| zone.name.as_bytes().eq_ignore_ascii_case(ident))
            .map(|zone| zone.name.to_string())
            .ok_or(TemporalError::UnknownTimeZone)
    }

    fn get_named_tz_epoch_nanoseconds(
        &self,
        identifier: &str,
        local_datetime: IsoDateTime,
    ) -> Result<Vec<EpochNanoseconds>, TemporalError> {
        let zone = self.zone(identifier)?;
        let local = local_datetime.as_nanoseconds().0;
        let mut found = Vec::new();
        let mut start = i128::MIN;
        let mut offset = zone.initial;
        for (at, next) in &zone.transitions {
            let end = *at as i128 * NS;
            let instant = local - offset as i128 * NS;
            if start <= instant && instant < end {
                found.push(EpochNanoseconds(instant));
            }
            start = end;
            offset = *next;
        }
        let instant = local - offset as i128 * NS;
        if start <= instant {
            found.push(EpochNanoseconds(instant));
        }
        Ok(found)
    }

    fn get_named_tz_offset_nanoseconds(
        &self,
        identifier: &str,
        epoch_nanoseconds: i128,
    ) -> Result<TimeZoneTransitionInfo, TemporalError> {
        let zone = self.zone(identifier)?;
        let mut info = TimeZoneTransitionInfo {
            transition_epoch: None,
            offset: UtcOffsetSeconds(zone.initial),
        };
        for (at, next) in &zone.transitions {
            if *at as i128 * NS <= epoch_nanoseconds {
                info = TimeZoneTransitionInfo {
                    transition_epoch: Some(*at),
                    offset: UtcOffsetSeconds(*next),
                };
            }
        }
        Ok(info)
    }
}

/// A provider that answers every question about local times in one fixed way.
struct Fixed {
    candidates: Result<Vec<EpochNanoseconds>, TemporalError>,
    info: Result<TimeZoneTransitionInfo, TemporalError>,
}

impl TimeZoneProvider for Fixed {
    fn normalize_identifier(&self, _ident: &[u8]) -> Result<String, TemporalError> {
        Err(TemporalError::ProviderFailure)
    }

    fn get_named_tz_epoch_nanoseconds(
        &self,
        _identifier: &str,
        _local_datetime: IsoDateTime,
    ) -> Result<Vec<EpochNanoseconds>, TemporalError> {
        self.candidates.clone()
    }

    fn get_named_tz_offset_nanoseconds(
        &self,
        _identifier: &str,
        _epoch_nanoseconds: i128,
    ) -> Result<TimeZoneTransitionInfo, TemporalError> {
        self.info
    }
}

/// A zone that skips every midnight and reports one transition for all
/// other times.
struct Skipping {
    transition: i64,
}

impl TimeZoneProvider for Skipping {
    fn normalize_identifier(&self, _ident: &[u8]) -> Result<String, TemporalError> {
        Err(TemporalError::ProviderFailure)
    }

    fn get_named_tz_epoch_nanoseconds(
        &self,
        _identifier: &str,
        local_datetime: IsoDateTime,
    ) -> Result<Vec<EpochNanoseconds>, TemporalError> {
        if local_datetime.time.hour == 0 {
            Ok(vec![])
        } else {
            Ok(vec![seconds(5)])
        }
    }

    fn get_named_tz_offset_nanoseconds(
        &self,
        _identifier: &str,
        _epoch_nanoseconds: i128,
    ) -> Result<TimeZoneTransitionInfo, TemporalError> {
        Ok(TimeZoneTransitionInfo {
            transition_epoch: Some(self.transition),
            offset: UtcOffsetSeconds(3_600),
        })
    }
}

fn plain_info() -> Result<TimeZoneTransitionInfo, TemporalError> {
    Ok(TimeZoneTransitionInfo { transition_epoch: None, offset: UtcOffsetSeconds(0) })
}

fn at(year: i32, month: u8, day: u8, hour: u8, minute: u8) -> IsoDateTime {
    let date_time = IsoDateTime::new_unchecked(
        IsoDate { year, month, day },
        IsoTime { hour, minute, second: 0, millisecond: 0, microsecond: 0, nanosecond: 0 },
    );
    assert!(date_time.is_valid());
    date_time
}

fn named(name: &str) -> TimeZone {
    TimeZone::IanaIdentifier(name.to_string())
}

fn fixed(minutes: i16) -> TimeZone {
    TimeZone::UtcOffset(UtcOffset::from_minutes(minutes))
}

fn seconds(epoch: i64) -> EpochNanoseconds {
    EpochNanoseconds(epoch as i128 * NS)
}

const POLICIES: [Disambiguation; 4] = [
    Disambiguation::Compatible,
    Disambiguation::Earlier,
    Disambiguation::Later,
    Disambiguation::Reject,
];

#[test]
fn from_and_to_string() {
    let provider = Table::new();

    let src = "+09:30";
    let tz = TimeZone::try_from_identifier_str_with_provider(src, &provider).unwrap();
    assert_eq!(tz.identifier(), src);

    let src = "-09:30";
    let tz = TimeZone::try_from_identifier_str_with_provider(src, &provider).unwrap();
    assert_eq!(tz.identifier(), src);

    let src = "-12:30";
    let tz = TimeZone::try_from_identifier_str_with_provider(src, &provider).unwrap();
    assert_eq!(tz.identifier(), src);

    let src = "America/New_York";
    let tz = TimeZone::try_from_identifier_str_with_provider(src, &provider).unwrap();
    assert_eq!(tz.identifier(), src);
}

#[test]
fn identifier_is_a_name_or_an_offset() {
    let provider = Table::new();
    assert_eq!(
        TimeZone::try_from_identifier_str_with_provider("america/new_york", &provider),
        Ok(named("America/New_York"))
    );
    assert_eq!(
        TimeZone::try_from_identifier_str_with_provider("+0930", &provider),
        Ok(fixed(570))
    );
    assert_eq!(
        TimeZone::try_from_identifier_str_with_provider("-05", &provider),
        Ok(fixed(-300))
    );
    for text in ["", "+09:30:00", "+09:30[UTC]", "2020-01-01T00:00Z", "Z!", "+25:00"] {
        assert_eq!(
            TimeZone::try_from_identifier_str_with_provider(text, &provider),
            Err(TemporalError::InvalidTimeZoneIdentifier)
        );
    }
}

#[test]
fn unknown_name_is_the_providers_error() {
    let provider = Table::new();
    assert_eq!(
        TimeZone::try_from_identifier_str_with_provider("Mars/Olympus", &provider),
        Err(TemporalError::UnknownTimeZone)
    );
    let failing = Fixed { candidates: Ok(vec![]), info: plain_info() };
    assert_eq!(
        TimeZone::try_from_identifier_str_with_provider("UTC", &failing),
        Err(TemporalError::ProviderFailure)
    );
}

#[test]
fn zone_of_a_record() {
    let provider = Table::new();
    assert_eq!(
        TimeZone::from_time_zone_record(ZoneRecord::Name(b"utc".to_vec()), &provider),
        Ok(named("UTC"))
    );
    assert_eq!(
        TimeZone::from_time_zone_record(ZoneRecord::Name(b"Nowhere".to_vec()), &provider),
        Err(TemporalError::UnknownTimeZone)
    );
    let offset = MinuteOffset { sign: Sign::Negative, hour: 5, minute: 30 };
    assert_eq!(
        TimeZone::from_time_zone_record(ZoneRecord::Offset(offset), &provider),
        Ok(fixed(-330))
    );
    assert_eq!(
        TimeZone::from_time_zone_record(ZoneRecord::Other, &provider),
        Err(TemporalError::InvariantViolation)
    );
}

#[test]
fn zone_of_a_date_time_string() {
    let provider = Table::new();
    let cases = [
        ("2020-01-01T00:00:00+05:30", fixed(330)),
        ("2020-01-01T00:00Z", named("UTC")),
        ("2020-01-01T00:00:00z", named("UTC")),
        ("2020-01-01T00:00:00-08:00[America/New_York]", named("America/New_York")),
        ("2020-01-01[america/sao_paulo]", named("America/Sao_Paulo")),
        ("2020-01-01T12:00[+01:00]", fixed(60)),
        ("2020-01-01T12:00Z[-03:30]", fixed(-210)),
        ("12:01:04-05:00", fixed(-300)),
        ("T12:01[UTC]", named("UTC")),
        ("2020-11[+04:00]", fixed(240)),
        ("1107[+04:00]", fixed(240)),
        ("--11-07[America/New_York]", named("America/New_York")),
    ];
    for (text, zone) in cases {
        assert_eq!(TimeZone::try_from_str_with_provider(text, &provider), Ok(zone.clone()));
        assert_eq!(parse_allowed_timezone_formats(text, &provider), Some(zone));
    }
}

#[test]
fn zone_of_the_parts_of_a_text() {
    let provider = Table::new();
    let offset = MinuteOffset { sign: Sign::Positive, hour: 5, minute: 30 };
    let minutes = Some(OffsetDesignator::MinutePrecision(offset));
    assert_eq!(zone_of_parts(ZoneParts { offset: None, annotation: None }, &provider), None);
    assert_eq!(
        zone_of_parts(ZoneParts { offset: minutes, annotation: None }, &provider),
        Some(fixed(330))
    );
    assert_eq!(
        zone_of_parts(ZoneParts { offset: Some(OffsetDesignator::Z), annotation: None }, &provider),
        Some(named("UTC"))
    );
    assert_eq!(
        zone_of_parts(
            ZoneParts { offset: Some(OffsetDesignator::FullPrecision), annotation: None },
            &provider
        ),
        None
    );
    // The zone in square brackets counts before the offset.
    let bracketed = Some(ZoneRecord::Name(b"america/new_york".to_vec()));
    assert_eq!(
        zone_of_parts(ZoneParts { offset: minutes, annotation: bracketed }, &provider),
        Some(named("America/New_York"))
    );
    let west = MinuteOffset { sign: Sign::Negative, hour: 8, minute: 0 };
    assert_eq!(
        zone_of_parts(
            ZoneParts { offset: minutes, annotation: Some(ZoneRecord::Offset(west)) },
            &provider
        ),
        Some(fixed(-480))
    );
    // A zone in square brackets that is no zone leaves nothing, whatever the offset.
    let unknown = Some(ZoneRecord::Name(b"Mars/Olympus".to_vec()));
    assert_eq!(zone_of_parts(ZoneParts { offset: minutes, annotation: unknown }, &provider), None);
    assert_eq!(
        zone_of_parts(ZoneParts { offset: minutes, annotation: Some(ZoneRecord::Other) }, &provider),
        None
    );
}

#[test]
fn text_is_read_as_an_identifier_first() {
    let provider = Table::new();
    assert_eq!(
        TimeZone::try_from_str_with_provider("America/New_York", &provider),
        Ok(named("America/New_York"))
    );
    assert_eq!(TimeZone::try_from_str_with_provider("-09:30", &provider), Ok(fixed(-570)));
    assert_eq!(parse_allowed_timezone_formats("America/New_York", &provider), None);
}

#[test]
fn text_without_a_zone() {
    let provider = Table::new();
    for text in [
        "",
        "2020-01-01",
        "2020-01-01T00:00",
        "2020-01-01T00:00:00+05:30:15",
        "2020-01-01T00:00[Mars/Olympus]",
        "Mars/Olympus",
        "12:00",
        "not a zone",
        "2020-13-01T00:00Z",
    ] {
        assert_eq!(
            TimeZone::try_from_str_with_provider(text, &provider),
            Err(TemporalError::InvalidTimeZoneString)
        );
        assert_eq!(parse_allowed_timezone_formats(text, &provider), None);
    }
}

#[test]
fn zone_of_an_offset_text() {
    assert_eq!(TimeZone::try_from_offset_str(b"+09:30"), Ok(fixed(570)));
    assert_eq!(
        TimeZone::try_from_offset_str(b"-00:00:01").map(|zone| zone.identifier()),
        Ok("-00:00:01".to_string())
    );
    assert_eq!(TimeZone::try_from_offset_str(b"UTC"), Err(TemporalError::InvalidOffset));
    assert_eq!(
        TimeZone::try_from_offset_str(b"+01:00:00.0000000001"),
        Err(TemporalError::InvalidFraction)
    );
    assert_eq!(TimeZone::try_from_offset_str(&[0xff, 0xfe]), Err(TemporalError::InvalidOffset));
}

#[test]
fn default_zone_is_utc() {
    assert_eq!(TimeZone::default(), named("UTC"));
    assert_eq!(TimeZone::default().identifier(), "UTC");
}

#[test]
fn zones_are_equal_by_kind_and_content() {
    assert_eq!(named("UTC"), named("UTC"));
    assert_ne!(named("UTC"), named("utc"));
    assert_eq!(fixed(60), fixed(60));
    assert_ne!(fixed(60), fixed(-60));
    assert_ne!(named("+01:00"), fixed(60));
    assert_eq!(fixed(60).identifier(), named("+01:00").identifier());
    let zone = named("America/New_York");
    assert_eq!(zone.clone(), zone);
    assert_eq!(fixed(-90).clone(), fixed(-90));
}

#[test]
fn zones_that_the_provider_knows() {
    let provider = Table::new();
    assert!(named("America/New_York").is_valid(&provider));
    assert!(named("UTC").is_valid(&provider));
    assert!(!named("Mars/Olympus").is_valid(&provider));
    assert!(fixed(570).is_valid(&provider));
    let failing = Fixed { candidates: Ok(vec![]), info: plain_info() };
    assert!(!named("UTC").is_valid(&failing));
    assert!(fixed(0).is_valid(&failing));
}

#[test]
fn offset_in_force() {
    let provider = Table::new();
    assert_eq!(fixed(570).get_offset_nanos_for(0, &provider), Ok(34_200 * NS));
    assert_eq!(fixed(570).get_offset_nanos_for(i128::MAX, &provider), Ok(34_200 * NS));
    let new_york = named("America/New_York");
    let spring = NEW_YORK_SPRING as i128 * NS;
    assert_eq!(new_york.get_offset_nanos_for(spring - 1, &provider), Ok(-18_000 * NS));
    assert_eq!(new_york.get_offset_nanos_for(spring, &provider), Ok(-14_400 * NS));
    let fall = NEW_YORK_FALL as i128 * NS;
    assert_eq!(new_york.get_offset_nanos_for(fall - 1, &provider), Ok(-14_400 * NS));
    assert_eq!(new_york.get_offset_nanos_for(fall, &provider), Ok(-18_000 * NS));
    assert_eq!(
        named("Mars/Olympus").get_offset_nanos_for(0, &provider),
        Err(TemporalError::UnknownTimeZone)
    );
    assert_eq!(
        named("Etc/Far").get_offset_nanos_for(0, &provider),
        Ok(10_000_000_000 * NS)
    );
}

#[test]
fn local_time_at_an_instant() {
    let provider = Table::new();
    let instant = seconds(1_489_303_800);
    assert_eq!(
        named("America/New_York").get_iso_datetime_for(&instant, &provider),
        Ok(at(2017, 3, 12, 3, 30))
    );
    assert_eq!(
        named("America/New_York").get_iso_datetime_for(&seconds(1_489_300_200), &provider),
        Ok(at(2017, 3, 12, 1, 30))
    );
    assert_eq!(fixed(570).get_iso_datetime_for(&instant, &provider), Ok(at(2017, 3, 12, 17, 0)));
    assert_eq!(fixed(-570).get_iso_datetime_for(&instant, &provider), Ok(at(2017, 3, 11, 22, 0)));
    assert_eq!(named("UTC").get_iso_datetime_for(&instant, &provider), Ok(at(2017, 3, 12, 7, 30)));
    assert_eq!(
        named("Mars/Olympus").get_iso_datetime_for(&instant, &provider),
        Err(TemporalError::UnknownTimeZone)
    );
}

#[test]
fn offset_too_large_for_64_bits_counts_as_zero() {
    let provider = Table::new();
    let instant = seconds(1_489_303_800);
    assert_eq!(
        named("Etc/Far").get_iso_datetime_for(&instant, &provider),
        Ok(at(2017, 3, 12, 7, 30))
    );
}

#[test]
fn fixed_offset_has_one_instant_for_every_local_time() {
    let provider = Table::new();
    assert_eq!(
        fixed(570).get_possible_epoch_ns_for(at(2017, 3, 12, 17, 0), &provider),
        Ok(vec![seconds(1_489_303_800)])
    );
    assert_eq!(
        fixed(-570).get_possible_epoch_ns_for(at(2017, 3, 11, 22, 0), &provider),
        Ok(vec![seconds(1_489_303_800)])
    );
    assert_eq!(
        fixed(0).get_possible_epoch_ns_for(at(1970, 1, 1, 0, 0), &provider),
        Ok(vec![seconds(0)])
    );
    assert_eq!(
        fixed(i16::MAX).get_possible_epoch_ns_for(at(1970, 1, 1, 0, 0), &provider),
        Ok(vec![seconds(-32767 * 60)])
    );
    assert_eq!(
        fixed(i16::MIN).get_possible_epoch_ns_for(at(1970, 1, 1, 0, 0), &provider),
        Ok(vec![seconds(32768 * 60)])
    );
}

#[test]
fn fixed_offset_takes_instants_to_local_times_and_back() {
    let provider = Table::new();
    for minutes in [-1439, -570, -1, 0, 1, 345, 1439, i16::MAX, i16::MIN] {
        let zone = fixed(minutes);
        for epoch in [
            -8_640_000_000_000_i64,
            -1_000_000_000,
            -1,
            0,
            1,
            951_868_800,
            1_489_303_800,
            8_640_000_000_000,
        ] {
            let instant = seconds(epoch);
            let local = zone.get_iso_datetime_for(&instant, &provider).unwrap();
            assert!(local.is_valid());
            assert_eq!(zone.get_possible_epoch_ns_for(local, &provider), Ok(vec![instant]));
            for policy in POLICIES {
                assert_eq!(zone.get_epoch_nanoseconds_for(local, policy, &provider), Ok(instant));
            }
            let offset = zone.get_offset_nanos_for(instant.0, &provider).unwrap();
            assert_eq!(instant.0 + offset, local.as_nanoseconds().0);
        }
    }
}

#[test]
fn named_zone_outside_transitions() {
    let provider = Table::new();
    let new_york = named("America/New_York");
    let winter = at(2017, 1, 15, 12, 0);
    let found = new_york.get_possible_epoch_ns_for(winter, &provider).unwrap();
    assert_eq!(found, vec![EpochNanoseconds(winter.as_nanoseconds().0 + 18_000 * NS)]);
    let summer = at(2017, 7, 15, 12, 0);
    let found = new_york.get_possible_epoch_ns_for(summer, &provider).unwrap();
    assert_eq!(found, vec![EpochNanoseconds(summer.as_nanoseconds().0 + 14_400 * NS)]);
    for policy in POLICIES {
        assert_eq!(new_york.get_epoch_nanoseconds_for(summer, policy, &provider), Ok(found[0]));
        assert_eq!(
            new_york.disambiguate_possible_epoch_nanos(found.clone(), summer, policy, &provider),
            Ok(found[0])
        );
    }
    let offset = new_york.get_offset_nanos_for(found[0].0, &provider).unwrap();
    assert_eq!(found[0].0 + offset, summer.as_nanoseconds().0);
    assert_eq!(new_york.get_iso_datetime_for(&found[0], &provider), Ok(summer));
}

#[test]
fn repeated_local_time_has_two_instants() {
    let provider = Table::new();
    let new_york = named("America/New_York");
    let local = at(2017, 11, 5, 1, 30);
    let found = new_york.get_possible_epoch_ns_for(local, &provider).unwrap();
    assert_eq!(found, vec![seconds(1_509_859_800), seconds(1_509_863_400)]);
    assert!(found[0].0 < found[1].0);
    assert_eq!(
        new_york.get_epoch_nanoseconds_for(local, Disambiguation::Compatible, &provider),
        Ok(found[0])
    );
    assert_eq!(
        new_york.get_epoch_nanoseconds_for(local, Disambiguation::Earlier, &provider),
        Ok(found[0])
    );
    assert_eq!(
        new_york.get_epoch_nanoseconds_for(local, Disambiguation::Later, &provider),
        Ok(found[1])
    );
    assert_eq!(
        new_york.get_epoch_nanoseconds_for(local, Disambiguation::Reject, &provider),
        Err(TemporalError::AmbiguousTime)
    );
    for instant in &found {
        assert_eq!(new_york.get_iso_datetime_for(instant, &provider), Ok(local));
    }
}

#[test]
fn later_of_a_repeated_time_differs_by_the_transition() {
    let provider = Table::new();
    let new_york = named("America/New_York");
    let local = at(2017, 11, 5, 1, 30);
    let earlier = new_york
        .get_epoch_nanoseconds_for(local, Disambiguation::Earlier, &provider)
        .unwrap();
    let later =
        new_york.get_epoch_nanoseconds_for(local, Disambiguation::Later, &provider).unwrap();
    assert_eq!(later, seconds(1_509_863_400));
    let offset_earlier = new_york.get_offset_nanos_for(earlier.0, &provider).unwrap();
    let offset_later = new_york.get_offset_nanos_for(later.0, &provider).unwrap();
    assert_eq!(offset_earlier, -14_400 * NS);
    assert_eq!(offset_later, -18_000 * NS);
    assert_eq!(offset_later - offset_earlier, -3_600 * NS);
    assert_eq!(later.0 - earlier.0, 3_600 * NS);
}

#[test]
fn several_candidates_are_picked_by_position() {
    let provider = Table::new();
    let zone = fixed(0);
    let local = at(2020, 1, 1, 0, 0);
    let three = vec![seconds(10), seconds(20), seconds(30)];
    assert_eq!(
        zone.disambiguate_possible_epoch_nanos(
            three.clone(),
            local,
            Disambiguation::Compatible,
            &provider
        ),
        Ok(seconds(10))
    );
    assert_eq!(
        zone.disambiguate_possible_epoch_nanos(
            three.clone(),
            local,
            Disambiguation::Earlier,
            &provider
        ),
        Ok(seconds(10))
    );
    assert_eq!(
        zone.disambiguate_possible_epoch_nanos(
            three.clone(),
            local,
            Disambiguation::Later,
            &provider
        ),
        Ok(seconds(30))
    );
    assert_eq!(
        zone.disambiguate_possible_epoch_nanos(three, local, Disambiguation::Reject, &provider),
        Err(TemporalError::AmbiguousTime)
    );
}

#[test]
fn skipped_local_time_has_no_instant() {
    let provider = Table::new();
    let new_york = named("America/New_York");
    let local = at(2017, 3, 12, 2, 30);
    assert_eq!(new_york.get_possible_epoch_ns_for(local, &provider), Ok(vec![]));
    assert_eq!(
        new_york.get_epoch_nanoseconds_for(local, Disambiguation::Reject, &provider),
        Err(TemporalError::AmbiguousTime)
    );
    assert_eq!(
        new_york.disambiguate_possible_epoch_nanos(
            vec![],
            local,
            Disambiguation::Reject,
            &provider
        ),
        Err(TemporalError::AmbiguousTime)
    );
}

#[test]
fn skipped_local_time_resolves_past_the_transition() {
    let provider = Table::new();
    let new_york = named("America/New_York");
    let local = at(2017, 3, 12, 2, 30);
    let compatible = new_york
        .get_epoch_nanoseconds_for(local, Disambiguation::Compatible, &provider)
        .unwrap();
    assert_eq!(compatible, seconds(1_489_303_800));
    assert!(compatible.0 >= NEW_YORK_SPRING as i128 * NS);
    assert_eq!(new_york.get_iso_datetime_for(&compatible, &provider), Ok(at(2017, 3, 12, 3, 30)));
    assert_eq!(
        new_york.get_epoch_nanoseconds_for(local, Disambiguation::Later, &provider),
        Ok(seconds(1_489_303_800))
    );
}

#[test]
fn skipped_local_time_resolves_before_the_transition() {
    let provider = Table::new();
    let new_york = named("America/New_York");
    let local = at(2017, 3, 12, 2, 30);
    let earlier =
        new_york.get_epoch_nanoseconds_for(local, Disambiguation::Earlier, &provider).unwrap();
    assert_eq!(earlier, seconds(1_489_300_200));
    assert!(earlier.0 < NEW_YORK_SPRING as i128 * NS);
    assert_eq!(new_york.get_iso_datetime_for(&earlier, &provider), Ok(at(2017, 3, 12, 1, 30)));
}

#[test]
fn skipped_local_time_never_resolves_to_itself() {
    let provider = Table::new();
    let new_york = named("America/New_York");
    for minute in [0, 1, 30, 59] {
        let local = at(2017, 3, 12, 2, minute);
        assert_eq!(new_york.get_possible_epoch_ns_for(local, &provider), Ok(vec![]));
        for policy in [Disambiguation::Compatible, Disambiguation::Earlier, Disambiguation::Later]
        {
            let instant = new_york.get_epoch_nanoseconds_for(local, policy, &provider).unwrap();
            let shown = new_york.get_iso_datetime_for(&instant, &provider).unwrap();
            assert_ne!(shown, local);
            assert!(shown.time.hour != 2);
            assert_eq!(new_york.get_possible_epoch_ns_for(shown, &provider), Ok(vec![instant]));
        }
    }
}

#[test]
fn without_candidates_a_fixed_offset_resolves_to_its_one_instant() {
    let provider = Table::new();
    let zone = fixed(570);
    let local = at(2017, 3, 12, 17, 0);
    for policy in [Disambiguation::Compatible, Disambiguation::Earlier, Disambiguation::Later] {
        assert_eq!(
            zone.disambiguate_possible_epoch_nanos(vec![], local, policy, &provider),
            Ok(seconds(1_489_303_800))
        );
    }
}

#[test]
fn day_starts_at_midnight() {
    let provider = Table::new();
    let day = IsoDate { year: 2017, month: 3, day: 12 };
    assert_eq!(
        named("America/New_York").get_start_of_day(&day, &provider),
        Ok(seconds(1_489_276_800 + 18_000))
    );
    assert_eq!(named("UTC").get_start_of_day(&day, &provider), Ok(seconds(1_489_276_800)));
    assert_eq!(fixed(570).get_start_of_day(&day, &provider), Ok(seconds(1_489_276_800 - 34_200)));
    assert_eq!(
        named("Mars/Olympus").get_start_of_day(&day, &provider),
        Err(TemporalError::UnknownTimeZone)
    );
}

#[test]
fn day_with_repeated_midnight_starts_at_the_first() {
    let provider = Fixed { candidates: Ok(vec![seconds(100), seconds(3_700)]), info: plain_info() };
    let day = IsoDate { year: 2017, month: 3, day: 12 };
    assert_eq!(named("Anywhere").get_start_of_day(&day, &provider), Ok(seconds(100)));
}

#[test]
fn day_with_skipped_midnight_starts_at_the_transition() {
    let provider = Table::new();
    let sao_paulo = named("America/Sao_Paulo");
    let day = IsoDate { year: 2018, month: 11, day: 4 };
    let midnight = at(2018, 11, 4, 0, 0);
    assert_eq!(sao_paulo.get_possible_epoch_ns_for(midnight, &provider), Ok(vec![]));
    let start = sao_paulo.get_start_of_day(&day, &provider).unwrap();
    assert_eq!(start, seconds(SAO_PAULO_SPRING));
    let offset = sao_paulo.get_offset_nanos_for(start.0, &provider).unwrap();
    assert_eq!(offset, -7_200 * NS);
    assert!(start.0 > midnight.as_nanoseconds().0 - offset);
    assert_eq!(sao_paulo.get_iso_datetime_for(&start, &provider), Ok(at(2018, 11, 4, 1, 0)));
}

#[test]
fn day_that_starts_outside_the_range_of_instants() {
    let day = IsoDate { year: 2018, month: 11, day: 4 };
    let zone = named("Anywhere");
    let last = 8_640_000_000_000_i64;
    assert_eq!(
        zone.get_start_of_day(&day, &Skipping { transition: last }),
        Ok(EpochNanoseconds(8_640_000_000_000_000_000_000))
    );
    assert_eq!(
        zone.get_start_of_day(&day, &Skipping { transition: -last }),
        Ok(EpochNanoseconds(-8_640_000_000_000_000_000_000))
    );
    for transition in [last + 1, -last - 1, i64::MAX, i64::MIN] {
        assert_eq!(
            zone.get_start_of_day(&day, &Skipping { transition }),
            Err(TemporalError::InstantOutOfRange)
        );
    }
    assert_eq!(zone.get_start_of_day(&day, &Skipping { transition: 7 }), Ok(seconds(7)));
}

#[test]
fn every_instant_that_is_found_lies_in_the_range_of_instants() {
    let provider = Table::new();
    let zones = [named("America/New_York"), named("America/Sao_Paulo"), fixed(-570), fixed(840)];
    let days = [
        IsoDate { year: 2017, month: 3, day: 12 },
        IsoDate { year: 2018, month: 11, day: 4 },
        IsoDate { year: 275760, month: 9, day: 13 },
        IsoDate { year: -271821, month: 4, day: 20 },
    ];
    for zone in &zones {
        for day in &days {
            if let Ok(start) = zone.get_start_of_day(day, &provider) {
                assert_eq!(start.check_validity(), Ok(()));
            }
            for hour in [0, 1, 2, 3, 23] {
                let local = IsoDateTime::new_unchecked(*day, IsoTime::at_hour(hour));
                for policy in POLICIES {
                    if let Ok(found) = zone.get_epoch_nanoseconds_for(local, policy, &provider) {
                        assert_eq!(found.check_validity(), Ok(()));
                    }
                }
            }
        }
    }
}

#[test]
fn narrowing_to_64_bits() {
    assert_eq!(i128_to_i64(0), Some(0));
    assert_eq!(i128_to_i64(-1), Some(-1));
    assert_eq!(i128_to_i64(i64::MAX as i128), Some(i64::MAX));
    assert_eq!(i128_to_i64(i64::MIN as i128), Some(i64::MIN));
    assert_eq!(i128_to_i64(i64::MAX as i128 + 1), None);
    assert_eq!(i128_to_i64(i64::MIN as i128 - 1), None);
    assert_eq!(i128_to_i64(i128::MAX), None);
    assert_eq!(i128_to_i64(i128::MIN), None);
}

#[test]
fn identifier_of_an_offset_names_the_offset_again() {
    let silent = Fixed { candidates: Ok(vec![]), info: plain_info() };
    let mut minutes: i16 = -1439;
    while minutes <= 1439 {
        let zone = fixed(minutes);
        let text = zone.identifier();
        assert_eq!(TimeZone::try_from_identifier_str_with_provider(&text, &silent), Ok(zone.clone()));
        assert_eq!(TimeZone::try_from_str_with_provider(&text, &silent), Ok(zone));
        minutes += 1;
    }
}

#[test]
fn zones_read_from_text_are_less_than_a_day() {
    let provider = Table::new();
    for text in ["+23:59", "-23:59", "2020-01-01T00:00+23:59", "12:00[-23:59]", "+00:00"] {
        match TimeZone::try_from_str_with_provider(text, &provider) {
            Ok(TimeZone::UtcOffset(offset)) => {
                assert!(offset.nanoseconds().abs() < 86_400_000_000_000);
            },
            other => panic!("{:?}", other),
        }
    }
    assert_eq!(
        UtcOffset::from_utf8(b"-23:59:59.999999999").map(|offset| offset.nanoseconds()),
        Ok(-86_399_999_999_999)
    );
    assert_eq!(UtcOffset::from_utf8(b"+24:00"), Err(TemporalError::InvalidOffset));
    assert_eq!(UtcOffset::from_utf8(b"+23:60"), Err(TemporalError::InvalidOffset));
    assert_eq!(UtcOffset::from_utf8(b"+23:59:60"), Err(TemporalError::InvalidOffset));
}

#[test]
fn instants_of_a_local_time_come_in_order() {
    let provider = Table::new();
    let new_york = named("America/New_York");
    for day in [4, 5, 6] {
        for hour in 0..24 {
            for minute in [0, 30, 59] {
                let local = at(2017, 11, day, hour, minute);
                let found = new_york.get_possible_epoch_ns_for(local, &provider).unwrap();
                assert!(found.len() <= 2);
                if found.len() == 2 {
                    assert!(found[0].0 < found[1].0);
                }
            }
        }
    }
}

#[test]
fn day_whose_start_the_provider_cannot_tell() {
    let day = IsoDate { year: 2018, month: 11, day: 4 };
    let nothing = Fixed { candidates: Ok(vec![]), info: plain_info() };
    assert_eq!(
        named("Anywhere").get_start_of_day(&day, &nothing),
        Err(TemporalError::StartOfDayUndetermined)
    );
    // Midnight is skipped, three o'clock exists, and no transition is reported.
    let provider = Table::new();
    let zone = named("America/Sao_Paulo");
    let silent = Silent { inner: provider };
    assert_eq!(zone.get_start_of_day(&day, &silent), Err(TemporalError::StartOfDayUndetermined));
}

/// A table that reports offsets without the instants of their transitions.
struct Silent {
    inner: Table,
}

impl TimeZoneProvider for Silent {
    fn normalize_identifier(&self, ident: &[u8]) -> Result<String, TemporalError> {
        self.inner.normalize_identifier(ident)
    }

    fn get_named_tz_epoch_nanoseconds(
        &self,
        identifier: &str,
        local_datetime: IsoDateTime,
    ) -> Result<Vec<EpochNanoseconds>, TemporalError> {
        self.inner.get_named_tz_epoch_nanoseconds(identifier, local_datetime)
    }

    fn get_named_tz_offset_nanoseconds(
        &self,
        identifier: &str,
        epoch_nanoseconds: i128,
    ) -> Result<TimeZoneTransitionInfo, TemporalError> {
        let info = self.inner.get_named_tz_offset_nanoseconds(identifier, epoch_nanoseconds)?;
        Ok(TimeZoneTransitionInfo { transition_epoch: None, offset: info.offset })
    }
}

#[test]
fn dates_outside_the_range_of_days() {
    let provider = Table::new();
    let beyond = at(275760, 9, 14, 0, 0);
    assert_eq!(
        named("UTC").get_possible_epoch_ns_for(beyond, &provider),
        Err(TemporalError::DateOutOfRange)
    );
    assert_eq!(
        fixed(0).get_possible_epoch_ns_for(beyond, &provider),
        Err(TemporalError::DateOutOfRange)
    );
    // For a fixed offset the date of the instant counts, not the local date.
    assert_eq!(
        fixed(60).get_possible_epoch_ns_for(at(275760, 9, 14, 0, 30), &provider),
        Err(TemporalError::InstantOutOfRange)
    );
    assert_eq!(
        fixed(-60).get_possible_epoch_ns_for(at(275760, 9, 13, 23, 30), &provider),
        Err(TemporalError::DateOutOfRange)
    );
    let far = at(i32::MAX, 12, 31, 23, 59);
    assert_eq!(
        fixed(i16::MIN).get_possible_epoch_ns_for(far, &provider),
        Err(TemporalError::DateOutOfRange)
    );
    assert_eq!(
        fixed(i16::MAX).get_possible_epoch_ns_for(at(i32::MIN, 1, 1, 0, 0), &provider),
        Err(TemporalError::DateOutOfRange)
    );
    let day = IsoDate { year: 275760, month: 9, day: 14 };
    assert_eq!(named("UTC").get_start_of_day(&day, &provider), Err(TemporalError::DateOutOfRange));
    for policy in POLICIES {
        assert_eq!(
            named("UTC").get_epoch_nanoseconds_for(beyond, policy, &provider),
            Err(TemporalError::DateOutOfRange)
        );
    }
}

#[test]
fn instants_outside_the_range_of_instants() {
    let provider = Table::new();
    let last_day = at(275760, 9, 13, 0, 0);
    assert_eq!(
        fixed(0).get_possible_epoch_ns_for(last_day, &provider),
        Ok(vec![EpochNanoseconds(8_640_000_000_000_000_000_000)])
    );
    assert_eq!(
        fixed(-1).get_possible_epoch_ns_for(last_day, &provider),
        Err(TemporalError::InstantOutOfRange)
    );
    assert_eq!(
        named("UTC").get_possible_epoch_ns_for(at(275760, 9, 13, 0, 1), &provider),
        Err(TemporalError::InstantOutOfRange)
    );
    let wild = Fixed {
        candidates: Ok(vec![seconds(0), EpochNanoseconds(i128::MAX)]),
        info: plain_info(),
    };
    assert_eq!(
        named("Anywhere").get_possible_epoch_ns_for(at(2020, 1, 1, 0, 0), &wild),
        Err(TemporalError::InstantOutOfRange)
    );
}

#[test]
fn provider_errors_pass_through() {
    let local = at(2020, 1, 1, 0, 0);
    let failing = Fixed { candidates: Err(TemporalError::ProviderFailure), info: plain_info() };
    assert_eq!(
        named("Anywhere").get_possible_epoch_ns_for(local, &failing),
        Err(TemporalError::ProviderFailure)
    );
    for policy in POLICIES {
        assert_eq!(
            named("Anywhere").get_epoch_nanoseconds_for(local, policy, &failing),
            Err(TemporalError::ProviderFailure)
        );
    }
    let day = IsoDate { year: 2020, month: 1, day: 1 };
    assert_eq!(
        named("Anywhere").get_start_of_day(&day, &failing),
        Err(TemporalError::ProviderFailure)
    );
    let deaf = Fixed { candidates: Ok(vec![seconds(5)]), info: Err(TemporalError::ProviderFailure) };
    assert_eq!(
        named("Anywhere").get_offset_nanos_for(0, &deaf),
        Err(TemporalError::ProviderFailure)
    );
    assert_eq!(
        named("Anywhere").get_iso_datetime_for(&seconds(0), &deaf),
        Err(TemporalError::ProviderFailure)
    );
    assert_eq!(
        named("Anywhere").disambiguate_possible_epoch_nanos(
            vec![],
            local,
            Disambiguation::Later,
            &deaf
        ),
        Err(TemporalError::ProviderFailure)
    );
}

#[test]
fn answers_that_contradict_each_other() {
    let local = at(2020, 1, 1, 0, 0);
    // Every local time is skipped: so are the times three hours to either side.
    let empty = Fixed { candidates: Ok(vec![]), info: plain_info() };
    // Every local time is repeated: so are the times three hours to either side.
    let double = Fixed { candidates: Ok(vec![seconds(1), seconds(2)]), info: plain_info() };
    for policy in [Disambiguation::Compatible, Disambiguation::Earlier, Disambiguation::Later] {
        assert_eq!(
            named("Anywhere").get_epoch_nanoseconds_for(local, policy, &empty),
            Err(TemporalError::InvariantViolation)
        );
        assert_eq!(
            named("Anywhere").disambiguate_possible_epoch_nanos(vec![], local, policy, &double),
            Err(TemporalError::InvariantViolation)
        );
    }
}

#[test]
fn gap_probes_that_leave_the_range_of_days() {
    let provider = Table::new();
    let edge = at(275760, 9, 13, 22, 0);
    assert_eq!(
        named("UTC").disambiguate_possible_epoch_nanos(
            vec![],
            edge,
            Disambiguation::Later,
            &provider
        ),
        Err(TemporalError::DateOutOfRange)
    );
    let first = at(-271821, 4, 20, 1, 0);
    assert_eq!(
        named("UTC").disambiguate_possible_epoch_nanos(
            vec![],
            first,
            Disambiguation::Earlier,
            &provider
        ),
        Err(TemporalError::DateOutOfRange)
    );
}
