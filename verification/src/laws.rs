//! What holds of the operations of this crate taken together.

use vstd::prelude::*;
use vstd::arithmetic::div_mod::{lemma_fundamental_div_mod, lemma_fundamental_div_mod_converse};
use vstd::utf8::{encode_utf8, is_ascii_chars, is_ascii_chars_encode_utf8};

use crate::error::TemporalError;
use crate::iso::{
    lemma_at, lemma_at_exists, lemma_epoch_ns_days, lemma_representable, IsoDate, IsoDateTime,
};
use crate::options::Disambiguation;
use crate::parsers::{
    digit_char, hour_minute_record, is_hour_minute_text, padded, FormattableOffset, Precision,
    Sign,
};
use crate::provider::{
    agrees, agrees_at, leads_to, same_offset, steady_since_transition, switches_at,
    switches_once, TimeZoneProvider,
};
use crate::timezone::{
    formattable, lemma_minute_offset, offset_minutes, offset_of_text, record_ns, TimeZoneView,
    UtcOffset, NS_IN_THREE_HOURS,
};
use crate::unix_time::EpochNanoseconds;

verus! {

/// The byte of a digit is 48 more than the digit.
proof fn lemma_digit_byte(digit: int)
    requires
        0 <= digit <= 9,
    ensures
        digit_char(digit) as u8 == 48 + digit,
        '\0' <= digit_char(digit) <= '\u{7f}',
{
}

/// An offset of hours up to 23 and minutes up to 59, written without
/// seconds, is six bytes that spell the same sign, hours and minutes.
proof fn lemma_hour_minute_text(written: FormattableOffset)
    requires
        written.time.hour <= 23,
        written.time.minute <= 59,
        written.time.precision == Precision::Minute,
    ensures
        is_hour_minute_text(encode_utf8(written.text())),
        hour_minute_record(encode_utf8(written.text())).sign == written.sign,
        hour_minute_record(encode_utf8(written.text())).hour == written.time.hour,
        hour_minute_record(encode_utf8(written.text())).minute == written.time.minute,
        hour_minute_record(encode_utf8(written.text())).second is None,
{
    let text = written.text();
    let hour = written.time.hour as int;
    let minute = written.time.minute as int;
    let sign = match written.sign {
        Sign::Negative => '-',
        Sign::Positive => '+',
    };
    let plain = seq![
        sign,
        digit_char(hour / 10),
        digit_char(hour % 10),
        ':',
        digit_char(minute / 10),
        digit_char(minute % 10),
    ];
    assert(padded(hour) =~= seq![digit_char(hour / 10), digit_char(hour % 10)]);
    assert(padded(minute) =~= seq![digit_char(minute / 10), digit_char(minute % 10)]);
    assert(text =~= plain);
    lemma_digit_byte(hour / 10);
    lemma_digit_byte(hour % 10);
    lemma_digit_byte(minute / 10);
    lemma_digit_byte(minute % 10);
    assert(is_ascii_chars(plain)) by {
        assert forall|i: int| 0 <= i < plain.len() implies '\0' <= #[trigger] plain[i]
            <= '\u{7f}' by {
            if i == 0 {
            } else if i == 1 {
            } else if i == 2 {
            } else if i == 3 {
            } else if i == 4 {
            } else {
            }
        }
    }
    is_ascii_chars_encode_utf8(plain);
    let bytes = encode_utf8(plain);
    assert(bytes[0] == plain[0] as u8);
    assert(bytes[1] == plain[1] as u8);
    assert(bytes[2] == plain[2] as u8);
    assert(bytes[3] == plain[3] as u8);
    assert(bytes[4] == plain[4] as u8);
    assert(bytes[5] == plain[5] as u8);
}

/// The written parts of an offset of whole minutes and of less than a day:
/// hours up to 23, minutes up to 59 and no seconds, which together are the
/// size of the offset.
proof fn lemma_minute_parts(ns: int)
    requires
        ns % 60_000_000_000 == 0,
        -86_400_000_000_000 < ns < 86_400_000_000_000,
    ensures
        formattable(ns).time.hour <= 23,
        formattable(ns).time.minute <= 59,
        formattable(ns).time.precision == Precision::Minute,
        formattable(ns).sign == if ns < 0 {
            Sign::Negative
        } else {
            Sign::Positive
        },
        (60 * formattable(ns).time.hour + formattable(ns).time.minute) * 60_000_000_000 == if ns
            < 0 {
            -ns
        } else {
            ns
        },
{
    let total = if ns < 0 {
        -ns
    } else {
        ns
    };
    let whole = ns / 60_000_000_000;
    lemma_fundamental_div_mod(ns, 60_000_000_000);
    let count = if ns < 0 {
        -whole
    } else {
        whole
    };
    assert(total == count * 60_000_000_000);
    assert(0 <= count < 1440);
    lemma_fundamental_div_mod_converse(total, 60_000_000_000, count, 0);
    lemma_fundamental_div_mod_converse(total, 1_000_000_000, count * 60, 0);
    let seconds = total / 1_000_000_000;
    assert(seconds == count * 60);
    lemma_fundamental_div_mod_converse(seconds, 60, count, 0);
    assert(seconds / 60 == count);
    assert(seconds % 60 == 0);
    assert(total % 1_000_000_000 == 0);
    lemma_fundamental_div_mod(count, 60);
}

/// Writing and reading an offset are inverse to each other: the text of an
/// offset of whole minutes and of less than a day, read back, is the offset.
pub proof fn lemma_offset_text_round_trip(ns: int)
    requires
        ns % 60_000_000_000 == 0,
        -86_400_000_000_000 < ns < 86_400_000_000_000,
    ensures
        offset_of_text(encode_utf8(formattable(ns).text())) == Ok::<int, TemporalError>(ns),
{
    let written = formattable(ns);
    lemma_minute_parts(ns);
    lemma_hour_minute_text(written);
    let record = hour_minute_record(encode_utf8(written.text()));
    assert(record_ns(record) == Ok::<int, TemporalError>(
        (60 * record.hour + record.minute) * record.sign.factor() * 60_000_000_000,
    ));
}

/// The text of an offset tells the offset: two offsets of whole minutes and
/// of less than a day that are written the same are the same.
pub proof fn lemma_offset_text_tells_offset(a: int, b: int)
    requires
        a % 60_000_000_000 == 0,
        -86_400_000_000_000 < a < 86_400_000_000_000,
        b % 60_000_000_000 == 0,
        -86_400_000_000_000 < b < 86_400_000_000_000,
        formattable(a).text() == formattable(b).text(),
    ensures
        a == b,
{
    lemma_offset_text_round_trip(a);
    lemma_offset_text_round_trip(b);
}

/// The identifier of a fixed-offset zone of whole minutes and of less than
/// a day names that zone again, whatever the provider.
pub proof fn lemma_offset_identifier_round_trip<P: TimeZoneProvider>(ns: int, provider: &P)
    requires
        ns % 60_000_000_000 == 0,
        -86_400_000_000_000 < ns < 86_400_000_000_000,
    ensures
        TimeZoneView::of_identifier(TimeZoneView::UtcOffset(ns).identifier(), provider) == Ok::<
            TimeZoneView,
            TemporalError,
        >(TimeZoneView::UtcOffset(ns)),
        TimeZoneView::of_text(TimeZoneView::UtcOffset(ns).identifier(), provider) == Ok::<
            TimeZoneView,
            TemporalError,
        >(TimeZoneView::UtcOffset(ns)),
{
    lemma_minute_parts(ns);
    lemma_hour_minute_text(formattable(ns));
}

/// A zone of a fixed offset maps instants and local times one to one: the
/// local time that its clocks show at an instant has that instant, and no
/// other, as its possible instant.
pub proof fn lemma_fixed_offset_round_trip<P: TimeZoneProvider>(
    offset: int,
    instant: EpochNanoseconds,
    provider: &P,
)
    requires
        UtcOffset::in_range(offset),
        TimeZoneView::UtcOffset(offset).minute_precise(),
        instant.spec_is_valid(),
    ensures
        TimeZoneView::UtcOffset(offset).local_time_at(instant, provider) matches Ok(local)
            && local.wf() && TimeZoneView::UtcOffset(offset).possible_instants(local, provider)
            == Ok::<Seq<EpochNanoseconds>, TemporalError>(seq![instant]),
{
    lemma_representable(instant.0 + offset);
    lemma_at_exists(instant.0 + offset);
    lemma_minute_offset(offset);
    let found = seq![instant];
    assert(found[0] == instant);
}

/// A local time that a named zone repeats has two possible instants, and the
/// policy picks between them: `Compatible` and `Earlier` the smaller,
/// `Later` the larger, and `Reject` neither.
pub proof fn lemma_fold_resolution<P: TimeZoneProvider>(
    name: Seq<char>,
    local: IsoDateTime,
    found: Seq<EpochNanoseconds>,
    provider: &P,
)
    requires
        IsoDate::in_day_range(local.date.epoch_days()),
        provider.local_candidates(name, local) == Ok::<Seq<EpochNanoseconds>, TemporalError>(
            found,
        ),
        found.len() == 2,
        found[0].0 < found[1].0,
        found[0].spec_is_valid(),
        found[1].spec_is_valid(),
    ensures
        TimeZoneView::IanaIdentifier(name).possible_instants(local, provider) == Ok::<
            Seq<EpochNanoseconds>,
            TemporalError,
        >(found),
        TimeZoneView::IanaIdentifier(name).instant_for(local, Disambiguation::Compatible, provider)
            == Ok::<EpochNanoseconds, TemporalError>(found[0]),
        TimeZoneView::IanaIdentifier(name).instant_for(local, Disambiguation::Earlier, provider)
            == Ok::<EpochNanoseconds, TemporalError>(found[0]),
        TimeZoneView::IanaIdentifier(name).instant_for(local, Disambiguation::Later, provider)
            == Ok::<EpochNanoseconds, TemporalError>(found[1]),
        TimeZoneView::IanaIdentifier(name).instant_for(local, Disambiguation::Reject, provider)
            == Err::<EpochNanoseconds, TemporalError>(TemporalError::AmbiguousTime),
{
}

/// A local time that a zone skips is an error under `Reject`. Under any
/// other policy the instant that is found, if one is found, does not belong
/// to the skipped time: it is a possible instant of another local time, the
/// skipped one moved by the width of the gap.
pub proof fn lemma_gap_resolution<P: TimeZoneProvider>(
    zone: TimeZoneView,
    local: IsoDateTime,
    policy: Disambiguation,
    provider: &P,
)
    requires
        zone.possible_instants(local, provider) == Ok::<Seq<EpochNanoseconds>, TemporalError>(
            Seq::empty(),
        ),
    ensures
        policy == Disambiguation::Reject ==> zone.instant_for(local, policy, provider) == Err::<
            EpochNanoseconds,
            TemporalError,
        >(TemporalError::AmbiguousTime),
        zone.instant_for(local, policy, provider) matches Ok(instant) ==> exists|
            target: IsoDateTime,
        |
            target != local && #[trigger] zone.shows(target, instant, provider),
{
    match zone.instant_for(local, policy, provider) {
        Ok(instant) => {
            let (offset_before, offset_after) = zone.gap_offsets(local, provider)->Ok_0;
            let target = TimeZoneView::gap_target(local, policy, offset_after - offset_before)->Ok_0;
            let found = zone.possible_instants(target, provider)->Ok_0;
            assert(found.len() > 0);
            assert(found[0] == instant || found.last() == instant);
            assert(found.contains(instant));
            assert(target != local);
            assert(zone.shows(target, instant, provider));
        },
        Err(_) => {},
    }
}

/// In a named zone whose provider's answers agree with each other and that
/// changes its offset at most once between the two instants three hours to
/// either side, a skipped local time resolves to the far side of the gap:
/// the local time shown at the instant found lies before the skipped one
/// under `Earlier` and after it under `Compatible` and `Later`, which find
/// the same instant.
pub proof fn lemma_gap_resolution_sides<P: TimeZoneProvider>(
    name: Seq<char>,
    local: IsoDateTime,
    policy: Disambiguation,
    before: EpochNanoseconds,
    after: EpochNanoseconds,
    provider: &P,
)
    requires
        local.wf(),
        policy != Disambiguation::Reject,
        TimeZoneView::IanaIdentifier(name).possible_instants(local, provider) == Ok::<
            Seq<EpochNanoseconds>,
            TemporalError,
        >(Seq::empty()),
        TimeZoneView::IanaIdentifier(name).possible_instants(
            IsoDateTime::at(local.epoch_ns() - NS_IN_THREE_HOURS),
            provider,
        ) == Ok::<Seq<EpochNanoseconds>, TemporalError>(seq![before]),
        TimeZoneView::IanaIdentifier(name).possible_instants(
            IsoDateTime::at(local.epoch_ns() + NS_IN_THREE_HOURS),
            provider,
        ) == Ok::<Seq<EpochNanoseconds>, TemporalError>(seq![after]),
        TimeZoneView::IanaIdentifier(name).instant_for(local, policy, provider) is Ok,
        agrees(provider, name),
        switches_once(provider, name, before.0, after.0),
    ensures
        ({
            let zone = TimeZoneView::IanaIdentifier(name);
            let found = zone.instant_for(local, policy, provider)->Ok_0;
            &&& zone.offset_at(found.0, provider) is Ok
            &&& policy == Disambiguation::Earlier ==> found.0 + zone.offset_at(
                found.0,
                provider,
            )->Ok_0 < local.epoch_ns()
            &&& policy != Disambiguation::Earlier ==> found.0 + zone.offset_at(
                found.0,
                provider,
            )->Ok_0 > local.epoch_ns()
            &&& zone.instant_for(local, Disambiguation::Compatible, provider) == zone.instant_for(
                local,
                Disambiguation::Later,
                provider,
            )
        }),
{
    let zone = TimeZoneView::IanaIdentifier(name);
    let found = zone.instant_for(local, policy, provider)->Ok_0;
    let earlier = IsoDateTime::at(local.epoch_ns() - NS_IN_THREE_HOURS);
    let later = IsoDateTime::at(local.epoch_ns() + NS_IN_THREE_HOURS);
    lemma_epoch_ns_days(local);
    lemma_representable(local.epoch_ns() - NS_IN_THREE_HOURS);
    lemma_at_exists(local.epoch_ns() - NS_IN_THREE_HOURS);
    lemma_representable(local.epoch_ns() + NS_IN_THREE_HOURS);
    lemma_at_exists(local.epoch_ns() + NS_IN_THREE_HOURS);
    assert(agrees_at(provider, name, local));
    assert(agrees_at(provider, name, earlier));
    assert(agrees_at(provider, name, later));
    let first = provider.transition_info(name, before.0);
    let last = provider.transition_info(name, after.0);
    assert(seq![before].contains(before)) by {
        assert(seq![before][0] == before);
    }
    assert(seq![after].contains(after)) by {
        assert(seq![after][0] == after);
    }
    assert(leads_to(first, before, earlier));
    assert(leads_to(last, after, later));
    let offset_before = first->Ok_0.offset.0 * 1_000_000_000;
    let offset_after = last->Ok_0.offset.0 * 1_000_000_000;
    assert(seq![before][0] == before);
    assert(seq![after][0] == after);
    assert(zone.gap_offsets(local, provider) == Ok::<(int, int), TemporalError>(
        (offset_before, offset_after),
    ));
    let width = offset_after - offset_before;
    if width <= 0 {
        let switch = choose|switch: i128| switches_at(provider, name, before.0, after.0, switch);
        let by_first = EpochNanoseconds((local.epoch_ns() - offset_before) as i128);
        let by_last = EpochNanoseconds((local.epoch_ns() - offset_after) as i128);
        assert(before.spec_is_valid() && after.spec_is_valid());
        assert(by_first.0 == before.0 + NS_IN_THREE_HOURS);
        assert(by_last.0 == after.0 - NS_IN_THREE_HOURS);
        let none = provider.local_candidates(name, local)->Ok_0;
        if by_first.0 < switch {
            assert(same_offset(provider.transition_info(name, by_first.0), first->Ok_0));
            assert(leads_to(provider.transition_info(name, by_first.0), by_first, local));
            assert(none.contains(by_first));
        } else {
            assert(same_offset(provider.transition_info(name, by_last.0), last->Ok_0));
            assert(leads_to(provider.transition_info(name, by_last.0), by_last, local));
            assert(none.contains(by_last));
        }
    }
    let shift = if policy == Disambiguation::Earlier {
        -width
    } else {
        width
    };
    let target = TimeZoneView::gap_target(local, policy, width)->Ok_0;
    lemma_representable(local.epoch_ns() + shift);
    lemma_at_exists(local.epoch_ns() + shift);
    assert(agrees_at(provider, name, target));
    let shown = zone.possible_instants(target, provider)->Ok_0;
    assert(shown.contains(found)) by {
        assert(shown[0] == found || shown.last() == found);
    }
    assert(leads_to(provider.transition_info(name, found.0), found, target));
}

/// Where a named zone skips the midnight of a day, the day begins at the
/// instant of the transition that the provider reports for three o'clock.
/// With a provider whose answers agree with each other, the clocks at that
/// instant show a time after the skipped midnight: the instant lies after
/// the one that midnight, read at the offset in force at the instant, would
/// have had.
pub proof fn lemma_start_of_day_in_gap<P: TimeZoneProvider>(
    name: Seq<char>,
    date: IsoDate,
    provider: &P,
)
    requires
        date.wf(),
        TimeZoneView::IanaIdentifier(name).possible_instants(
            IsoDateTime::spec_on(date, 0),
            provider,
        ) == Ok::<Seq<EpochNanoseconds>, TemporalError>(Seq::empty()),
        TimeZoneView::IanaIdentifier(name).start_of_day(date, provider) is Ok,
    ensures
        ({
            let zone = TimeZoneView::IanaIdentifier(name);
            let later = zone.possible_instants(IsoDateTime::spec_on(date, 3), provider)->Ok_0;
            let info = provider.transition_info(name, later[0].0)->Ok_0;
            let start = zone.start_of_day(date, provider)->Ok_0;
            &&& info.transition_epoch is Some
            &&& start.0 == info.transition_epoch->0 * 1_000_000_000
            &&& start.spec_is_valid()
            &&& agrees_at(provider, name, IsoDateTime::spec_on(date, 0)) && agrees_at(
                provider,
                name,
                IsoDateTime::spec_on(date, 3),
            ) && steady_since_transition(provider, name, later[0].0) ==> zone.offset_at(
                start.0,
                provider,
            ) == Ok::<int, TemporalError>(info.offset.0 * 1_000_000_000) && start.0
                + info.offset.0 * 1_000_000_000 > IsoDateTime::spec_on(date, 0).epoch_ns()
        }),
{
    let zone = TimeZoneView::IanaIdentifier(name);
    let midnight = IsoDateTime::spec_on(date, 0);
    let three = IsoDateTime::spec_on(date, 3);
    let later = zone.possible_instants(three, provider)->Ok_0;
    let info = provider.transition_info(name, later[0].0)->Ok_0;
    let start = zone.start_of_day(date, provider)->Ok_0;
    if agrees_at(provider, name, midnight) && agrees_at(provider, name, three)
        && steady_since_transition(provider, name, later[0].0) {
        let naive = midnight.epoch_ns() - info.offset.0 * 1_000_000_000;
        assert(three.epoch_ns() == midnight.epoch_ns() + 10_800_000_000_000);
        assert(later.contains(later[0]));
        assert(leads_to(provider.transition_info(name, later[0].0), later[0], three));
        assert(naive == later[0].0 - 10_800_000_000_000);
        assert(same_offset(provider.transition_info(name, start.0), info));
        if start.0 <= naive {
            let probe = EpochNanoseconds(naive as i128);
            assert(same_offset(provider.transition_info(name, probe.0), info));
            assert(leads_to(provider.transition_info(name, probe.0), probe, midnight));
            let none = provider.local_candidates(name, midnight)->Ok_0;
            assert(none.contains(probe));
        }
    }
}

/// Nothing is lost on the way from a local time to its instants in a named
/// zone, with a provider whose answers agree with each other: each instant
/// and the offset in force at it give the local time back.
pub proof fn lemma_named_zone_reconstructs_local<P: TimeZoneProvider>(
    name: Seq<char>,
    local: IsoDateTime,
    i: int,
    provider: &P,
)
    requires
        agrees_at(provider, name, local),
        TimeZoneView::IanaIdentifier(name).possible_instants(local, provider) matches Ok(found)
            && 0 <= i < found.len(),
    ensures
        ({
            let found = TimeZoneView::IanaIdentifier(name).possible_instants(local, provider)->Ok_0;
            TimeZoneView::IanaIdentifier(name).offset_at(found[i].0, provider) matches Ok(offset)
                && found[i].0 + offset == local.epoch_ns()
        }),
{
    let found = TimeZoneView::IanaIdentifier(name).possible_instants(local, provider)->Ok_0;
    assert(found.contains(found[i]));
    assert(leads_to(provider.transition_info(name, found[i].0), found[i], local));
}

/// Nothing is lost on the way from a local time to its instant under a
/// fixed offset: the instant and the offset in force at it give the local
/// time back.
pub proof fn lemma_fixed_offset_reconstructs_local<P: TimeZoneProvider>(
    offset: int,
    local: IsoDateTime,
    provider: &P,
)
    requires
        UtcOffset::in_range(offset),
        TimeZoneView::UtcOffset(offset).minute_precise(),
        local.wf(),
        TimeZoneView::UtcOffset(offset).possible_instants(local, provider) is Ok,
    ensures
        TimeZoneView::UtcOffset(offset).possible_instants(local, provider) matches Ok(found)
            && found.len() == 1 && TimeZoneView::UtcOffset(offset).offset_at(found[0].0, provider)
            == Ok::<int, TemporalError>(offset) && found[0].0 + offset == local.epoch_ns()
            && TimeZoneView::UtcOffset(offset).local_time_at(found[0], provider) == Ok::<
            IsoDateTime,
            TemporalError,
        >(local),
{
    lemma_at(local);
    lemma_minute_offset(offset);
    let utc = local.epoch_ns() - offset_minutes(offset) * 60_000_000_000;
    let found = seq![EpochNanoseconds(utc as i128)];
    assert(found[0] == EpochNanoseconds(utc as i128));
}

} // verus!
