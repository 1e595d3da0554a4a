//! Text: the records that the parser of the `ixdtf` crate reads from a string,
//! and the writing of an offset.
//!
//! The grammar of date-time strings belongs to `ixdtf`. This module calls its
//! parsers, copies what they found into records of plain values, and gives
//! each parser's answer a name, so that contracts elsewhere can say which
//! time zone a text denotes.

use vstd::prelude::*;
use vstd::string::{StringExecFns, StringSliceAdditionalSpecFns};

use ixdtf::parsers::{IxdtfParser, TimeZoneParser};
use ixdtf::records::{
    MinutePrecisionOffset, TimeZoneRecord, UtcOffsetRecord, UtcOffsetRecordOrZ,
};
use ixdtf::ParseError;

verus! {

/// The sign of an offset.
#[derive(Debug, Clone, Copy, PartialEq, Eq, Structural)]
pub enum Sign {
    Negative,
    Positive,
}

impl Sign {
    /// The sign as a factor: `-1` or `1`.
    pub open spec fn factor(self) -> int {
        match self {
            Sign::Negative => -1,
            Sign::Positive => 1,
        }
    }
}

/// An offset in hours and minutes.
#[derive(Debug, Clone, Copy, PartialEq, Eq, Structural)]
pub struct MinuteOffset {
    pub sign: Sign,
    pub hour: u8,
    pub minute: u8,
}

impl MinuteOffset {
    /// Hours up to 23 and minutes up to 59: what a text can spell.
    pub open spec fn in_clock_range(self) -> bool {
        self.hour <= 23 && self.minute <= 59
    }
}

/// The digits after the decimal point of a second.
#[derive(Debug, Clone, Copy, PartialEq, Eq, Structural)]
pub struct Fraction {
    /// The digits as nanoseconds; nothing where there are more than nine.
    pub nanoseconds: Option<u32>,
}

/// An offset as it stands in a text: hours and minutes, and seconds with
/// their fraction where the text has them.
#[derive(Debug, Clone, Copy, PartialEq, Eq, Structural)]
pub struct OffsetRecord {
    pub sign: Sign,
    pub hour: u8,
    pub minute: u8,
    pub second: Option<u8>,
    pub fraction: Option<Fraction>,
}

impl OffsetRecord {
    /// Hours up to 23, minutes and seconds up to 59 and a fraction below one
    /// second: what a text can spell.
    pub open spec fn in_clock_range(self) -> bool {
        &&& self.hour <= 23
        &&& self.minute <= 59
        &&& self.second matches Some(second) ==> second <= 59
        &&& self.fraction matches Some(fraction) ==> (fraction.nanoseconds matches Some(
            nanoseconds,
        ) ==> nanoseconds <= 999_999_999)
    }
}

/// A time zone as it stands in a text.
#[derive(Debug)]
pub enum ZoneRecord {
    /// The name of a zone.
    Name(Vec<u8>),
    /// An offset in hours and minutes.
    Offset(MinuteOffset),
    /// A form that this crate does not know.
    Other,
}

/// A `ZoneRecord` with the bytes of the name as a sequence.
pub enum ZoneRecordView {
    Name(Seq<u8>),
    Offset(MinuteOffset),
    Other,
}

impl ZoneRecordView {
    /// An offset, where the record is one, has hours up to 23 and minutes
    /// up to 59.
    pub open spec fn in_clock_range(self) -> bool {
        self matches ZoneRecordView::Offset(offset) ==> offset.in_clock_range()
    }
}

impl View for ZoneRecord {
    type V = ZoneRecordView;

    open spec fn view(&self) -> ZoneRecordView {
        match self {
            ZoneRecord::Name(name) => ZoneRecordView::Name(name@),
            ZoneRecord::Offset(offset) => ZoneRecordView::Offset(*offset),
            ZoneRecord::Other => ZoneRecordView::Other,
        }
    }
}

/// The offset that follows the time in a date-time string.
#[derive(Debug, Clone, Copy, PartialEq, Eq, Structural)]
pub enum OffsetDesignator {
    /// The letter Z: UTC.
    Z,
    /// An offset in hours and minutes.
    MinutePrecision(MinuteOffset),
    /// An offset with seconds.
    FullPrecision,
}

/// What a date-time string says of its time zone.
#[derive(Debug)]
pub struct ZoneParts {
    /// The offset after the time.
    pub offset: Option<OffsetDesignator>,
    /// The time zone in square brackets.
    pub annotation: Option<ZoneRecord>,
}

/// `ZoneParts` with the annotation by its view.
pub struct ZonePartsView {
    pub offset: Option<OffsetDesignator>,
    pub annotation: Option<ZoneRecordView>,
}

impl ZonePartsView {
    /// Every offset among the parts has hours up to 23 and minutes up to 59.
    pub open spec fn in_clock_range(self) -> bool {
        &&& self.offset matches Some(OffsetDesignator::MinutePrecision(offset))
            ==> offset.in_clock_range()
        &&& self.annotation matches Some(record) ==> record.in_clock_range()
    }
}

impl View for ZoneParts {
    type V = ZonePartsView;

    open spec fn view(&self) -> ZonePartsView {
        ZonePartsView {
            offset: self.offset,
            annotation: match self.annotation {
                Some(record) => Some(record@),
                None => None,
            },
        }
    }
}

/// The error of the `ixdtf` parsers.
#[verifier::external_type_specification]
#[verifier::external_body]
pub struct ExParseError(ParseError);

/// What `TimeZoneParser::parse_offset` reads from the bytes; nothing where it
/// rejects them.
pub uninterp spec fn parsed_offset(source: Seq<u8>) -> Option<OffsetRecord>;

/// What `TimeZoneParser::parse_identifier` reads from the text.
pub uninterp spec fn parsed_identifier(source: Seq<char>) -> Option<ZoneRecordView>;

/// What `IxdtfParser::parse` reads of the time zone of a date-time string.
pub uninterp spec fn parsed_date_time(source: Seq<char>) -> Option<ZonePartsView>;

/// What `IxdtfParser::parse_time` reads of the time zone of a time string.
pub uninterp spec fn parsed_time(source: Seq<char>) -> Option<ZonePartsView>;

/// What `IxdtfParser::parse_year_month` reads of the time zone of a
/// year-month string.
pub uninterp spec fn parsed_year_month(source: Seq<char>) -> Option<ZonePartsView>;

/// What `IxdtfParser::parse_month_day` reads of the time zone of a month-day
/// string.
pub uninterp spec fn parsed_month_day(source: Seq<char>) -> Option<ZonePartsView>;

/// Whether the byte is one of the digits `0` to `9`.
pub open spec fn is_digit(byte: u8) -> bool {
    48 <= byte <= 57
}

/// The number that two digits spell.
pub open spec fn two_digit_value(tens: u8, ones: u8) -> int {
    (tens - 48) * 10 + (ones - 48)
}

/// Whether the bytes are an offset in the form `+HH:MM` or `-HH:MM`, with
/// hours up to 23 and minutes up to 59.
pub open spec fn is_hour_minute_text(source: Seq<u8>) -> bool {
    &&& source.len() == 6
    &&& (source[0] == 43 || source[0] == 45)
    &&& is_digit(source[1])
    &&& is_digit(source[2])
    &&& source[3] == 58
    &&& is_digit(source[4])
    &&& is_digit(source[5])
    &&& two_digit_value(source[1], source[2]) <= 23
    &&& two_digit_value(source[4], source[5]) <= 59
}

/// The record that an offset of the form `+HH:MM` or `-HH:MM` spells.
pub open spec fn hour_minute_record(source: Seq<u8>) -> OffsetRecord {
    OffsetRecord {
        sign: if source[0] == 43 {
            Sign::Positive
        } else {
            Sign::Negative
        },
        hour: two_digit_value(source[1], source[2]) as u8,
        minute: two_digit_value(source[4], source[5]) as u8,
        second: None,
        fraction: None,
    }
}

/// The offset in hours and minutes that a text of the form `+HH:MM` or
/// `-HH:MM` spells.
pub open spec fn hour_minute_offset(source: Seq<u8>) -> MinuteOffset {
    MinuteOffset {
        sign: hour_minute_record(source).sign,
        hour: hour_minute_record(source).hour,
        minute: hour_minute_record(source).minute,
    }
}

/// The record of a text, or nothing where the parser rejected it.
pub open spec fn found<T>(r: Result<T, ParseError>) -> Option<T> {
    match r {
        Ok(record) => Some(record),
        Err(_) => None,
    }
}

/// The view of the zone record of a text, or nothing.
pub open spec fn found_zone(r: Result<ZoneRecord, ParseError>) -> Option<ZoneRecordView> {
    match r {
        Ok(record) => Some(record@),
        Err(_) => None,
    }
}

/// The view of the zone parts of a text, or nothing.
pub open spec fn found_parts(r: Result<ZoneParts, ParseError>) -> Option<ZonePartsView> {
    match r {
        Ok(parts) => Some(parts@),
        Err(_) => None,
    }
}

/// The character of a digit from 0 to 9.
pub open spec fn digit_char(digit: int) -> char {
    if digit == 0 {
        '0'
    } else if digit == 1 {
        '1'
    } else if digit == 2 {
        '2'
    } else if digit == 3 {
        '3'
    } else if digit == 4 {
        '4'
    } else if digit == 5 {
        '5'
    } else if digit == 6 {
        '6'
    } else if digit == 7 {
        '7'
    } else if digit == 8 {
        '8'
    } else {
        '9'
    }
}

/// A number below 256 in decimal, with a leading zero where it is below ten.
pub open spec fn padded(n: int) -> Seq<char> {
    if n < 100 {
        seq![digit_char(n / 10), digit_char(n % 10)]
    } else {
        seq![digit_char(n / 100), digit_char(n / 10 % 10), digit_char(n % 10)]
    }
}

/// The value of the decimal place `i` of nine, counted from the highest.
pub open spec fn place_value(i: int) -> int {
    if i == 0 {
        100_000_000
    } else if i == 1 {
        10_000_000
    } else if i == 2 {
        1_000_000
    } else if i == 3 {
        100_000
    } else if i == 4 {
        10_000
    } else if i == 5 {
        1_000
    } else if i == 6 {
        100
    } else if i == 7 {
        10
    } else {
        1
    }
}

/// The last nine decimal digits of a number, the highest first.
pub open spec fn nine_digits(n: int) -> Seq<char> {
    Seq::new(9, |i: int| digit_char(n / place_value(i) % 10))
}

/// The digits without the zeros at their end.
pub open spec fn without_trailing_zeros(digits: Seq<char>) -> Seq<char>
    decreases digits.len(),
{
    if digits.len() > 0 && digits.last() == '0' {
        without_trailing_zeros(digits.drop_last())
    } else {
        digits
    }
}

/// Digits that are zero from `keep` on, and not just before, lose exactly
/// the part from `keep` on.
proof fn lemma_without_trailing_zeros(digits: Seq<char>, keep: int)
    requires
        0 <= keep <= digits.len(),
        forall|i: int| keep <= i < digits.len() ==> digits[i] == '0',
        keep > 0 ==> digits[keep - 1] != '0',
    ensures
        without_trailing_zeros(digits) == digits.take(keep),
    decreases digits.len() - keep,
{
    if keep < digits.len() {
        lemma_without_trailing_zeros(digits.drop_last(), keep);
        assert(digits.drop_last().take(keep) =~= digits.take(keep));
    } else {
        assert(digits.take(keep) =~= digits);
    }
}

/// How much of a time is written.
#[derive(Debug, Clone, Copy, PartialEq, Eq, Structural)]
pub enum Precision {
    /// Seconds always, and the fraction as far as it is not zero.
    Auto,
    /// Hours and minutes only.
    Minute,
}

/// A time of day to be written.
#[derive(Debug, Clone, Copy, PartialEq, Eq, Structural)]
pub struct FormattableTime {
    pub hour: u8,
    pub minute: u8,
    pub second: u8,
    pub nanosecond: u32,
    pub precision: Precision,
}

/// An offset to be written.
#[derive(Debug, Clone, Copy, PartialEq, Eq, Structural)]
pub struct FormattableOffset {
    pub sign: Sign,
    pub time: FormattableTime,
}

impl FormattableTime {
    /// The time as `HH:MM`, or as `HH:MM:SS` with as many digits of the
    /// fraction as it takes, none where the fraction is zero.
    pub open spec fn text(self) -> Seq<char> {
        padded(self.hour as int) + seq![':'] + padded(self.minute as int) + if self.precision
            == Precision::Minute {
            Seq::<char>::empty()
        } else {
            seq![':'] + padded(self.second as int) + if self.nanosecond == 0 {
                Seq::<char>::empty()
            } else {
                seq!['.'] + without_trailing_zeros(nine_digits(self.nanosecond as int))
            }
        }
    }
}

impl FormattableOffset {
    /// The sign, then the time.
    pub open spec fn text(self) -> Seq<char> {
        seq![
            match self.sign {
                Sign::Negative => '-',
                Sign::Positive => '+',
            },
        ] + self.time.text()
    }

    /// The offset as text.
    pub fn to_string(&self) -> (r: String)
        ensures
            r@ == self.text(),
    {
        let mut out = String::new();
        match self.sign {
            Sign::Negative => {
                proof {
                    reveal_strlit("-");
                }
                out.append("-");
                assert(out@ =~= seq!['-']);
            },
            Sign::Positive => {
                proof {
                    reveal_strlit("+");
                }
                out.append("+");
                assert(out@ =~= seq!['+']);
            },
        }
        write_time(&mut out, &self.time);
        out
    }
}

/// Appends one of the marks between the parts of a time.
fn write_mark(out: &mut String, mark: char)
    requires
        mark == ':' || mark == '.',
    ensures
        final(out)@ == old(out)@ + seq![mark],
{
    proof {
        reveal_strlit(":");
        reveal_strlit(".");
    }
    if mark == ':' {
        out.append(":");
    } else {
        out.append(".");
    }
    assert(out@ =~= old(out)@ + seq![mark]);
}

/// Appends a time.
fn write_time(out: &mut String, time: &FormattableTime)
    ensures
        final(out)@ == old(out)@ + time.text(),
{
    let ghost hour = padded(time.hour as int);
    let ghost minute = padded(time.minute as int);
    let ghost second = padded(time.second as int);
    let ghost fraction = without_trailing_zeros(nine_digits(time.nanosecond as int));
    write_padded(out, time.hour);
    write_mark(out, ':');
    write_padded(out, time.minute);
    assert(out@ =~= old(out)@ + (hour + seq![':'] + minute));
    match time.precision {
        Precision::Minute => {
            assert(time.text() =~= hour + seq![':'] + minute);
            return ;
        },
        Precision::Auto => {},
    }
    write_mark(out, ':');
    write_padded(out, time.second);
    assert(out@ =~= old(out)@ + (hour + seq![':'] + minute + (seq![':'] + second)));
    if time.nanosecond == 0 {
        assert(time.text() =~= hour + seq![':'] + minute + (seq![':'] + second));
        return ;
    }
    write_mark(out, '.');
    write_fraction(out, time.nanosecond);
    assert(out@ =~= old(out)@ + (hour + seq![':'] + minute + (seq![':'] + second + (seq!['.']
        + fraction))));
    assert(time.text() =~= hour + seq![':'] + minute + (seq![':'] + second + (seq!['.']
        + fraction)));
}

/// The text of one digit.
fn digit_str(digit: u8) -> (r: &'static str)
    requires
        digit < 10,
    ensures
        r@ == seq![digit_char(digit as int)],
{
    proof {
        reveal_strlit("0");
        reveal_strlit("1");
        reveal_strlit("2");
        reveal_strlit("3");
        reveal_strlit("4");
        reveal_strlit("5");
        reveal_strlit("6");
        reveal_strlit("7");
        reveal_strlit("8");
        reveal_strlit("9");
    }
    let r: &'static str = match digit {
        0 => "0",
        1 => "1",
        2 => "2",
        3 => "3",
        4 => "4",
        5 => "5",
        6 => "6",
        7 => "7",
        8 => "8",
        _ => "9",
    };
    assert(r@ =~= seq![digit_char(digit as int)]);
    r
}

/// Appends a number in decimal, with a leading zero where it is below ten.
fn write_padded(out: &mut String, n: u8)
    ensures
        final(out)@ == old(out)@ + padded(n as int),
{
    if n >= 100 {
        out.append(digit_str(n / 100));
        out.append(digit_str(n / 10 % 10));
        out.append(digit_str(n % 10));
    } else {
        out.append(digit_str(n / 10));
        out.append(digit_str(n % 10));
    }
    assert(out@ =~= old(out)@ + padded(n as int));
}

/// The value of the decimal place `i` of nine, counted from the highest.
fn place(i: usize) -> (r: u32)
    requires
        i < 9,
    ensures
        r == place_value(i as int),
        r > 0,
{
    match i {
        0 => 100_000_000,
        1 => 10_000_000,
        2 => 1_000_000,
        3 => 100_000,
        4 => 10_000,
        5 => 1_000,
        6 => 100,
        7 => 10,
        _ => 1,
    }
}

/// Appends the last nine digits of a number without the zeros at their end.
fn write_fraction(out: &mut String, n: u32)
    ensures
        final(out)@ == old(out)@ + without_trailing_zeros(nine_digits(n as int)),
{
    let ghost all = nine_digits(n as int);
    let mut keep: usize = 9;
    while keep > 0 && n / place(keep - 1) % 10 == 0
        invariant
            keep <= 9,
            all == nine_digits(n as int),
            forall|i: int| keep <= i < 9 ==> #[trigger] all[i] == '0',
        decreases keep,
    {
        keep = keep - 1;
    }
    proof {
        lemma_without_trailing_zeros(all, keep as int);
    }
    let mut i: usize = 0;
    while i < keep
        invariant
            i <= keep <= 9,
            all == nine_digits(n as int),
            out@ == old(out)@ + all.take(i as int),
        decreases keep - i,
    {
        out.append(digit_str((n / place(i) % 10) as u8));
        assert(all.take(i as int + 1) =~= all.take(i as int) + seq![all[i as int]]);
        i = i + 1;
    }
}

/// `TimeZoneParser::parse_offset` of ixdtf on the bytes, with the record
/// read off through its accessors and the fraction through
/// `Fraction::to_nanoseconds`. The answer depends on the bytes alone. The
/// parser accepts hours up to 23, minutes and seconds up to 59, and a
/// fraction of nine digits or fewer is below one second. Six bytes of the
/// form `+HH:MM` or `-HH:MM`, hours up to 23 and minutes up to 59, give
/// exactly that sign, hour and minute and no seconds.
#[verifier::external_body]
pub(crate) fn parse_offset(source: &[u8]) -> (r: Result<OffsetRecord, ParseError>)
    ensures
        found(r) == parsed_offset(source@),
        r matches Ok(record) ==> record.in_clock_range(),
        is_hour_minute_text(source@) ==> found(r) == Some(hour_minute_record(source@)),
{
    let record = TimeZoneParser::from_utf8(source).parse_offset()?;
    Ok(OffsetRecord {
        sign: match record.sign() {
            ixdtf::records::Sign::Positive => Sign::Positive,
            ixdtf::records::Sign::Negative => Sign::Negative,
        },
        hour: record.hour(),
        minute: record.minute(),
        second: record.second(),
        fraction: record.fraction().map(|f| Fraction { nanoseconds: f.to_nanoseconds() }),
    })
}

/// `TimeZoneParser::parse_identifier` of ixdtf on the text, with its record
/// copied field by field: a zone name or an offset in hours and minutes. The
/// answer depends on the text alone. The parser accepts hours up to 23 and
/// minutes up to 59 in an offset. A text of the six bytes `+HH:MM` or
/// `-HH:MM`, hours up to 23 and minutes up to 59, is an offset of exactly
/// that sign, hour and minute.
#[verifier::external_body]
pub(crate) fn parse_identifier(source: &str) -> (r: Result<ZoneRecord, ParseError>)
    ensures
        found_zone(r) == parsed_identifier(source@),
        r matches Ok(record) ==> record@.in_clock_range(),
        is_hour_minute_text(source.spec_bytes()) ==> found_zone(r) == Some(
            ZoneRecordView::Offset(hour_minute_offset(source.spec_bytes())),
        ),
{
    let own = |m: MinutePrecisionOffset| MinuteOffset { sign: match m.sign { ixdtf::records::Sign::Positive => Sign::Positive, ixdtf::records::Sign::Negative => Sign::Negative }, hour: m.hour, minute: m.minute };
    Ok(match TimeZoneParser::from_str(source).parse_identifier()? {
        TimeZoneRecord::Name(name) => ZoneRecord::Name(name.to_vec()),
        TimeZoneRecord::Offset(m) => ZoneRecord::Offset(own(m)),
        _ => ZoneRecord::Other,
    })
}

/// `IxdtfParser::parse` of ixdtf on the text, which it reads as
/// a date, alone or with a time, with what this crate keeps of its record: the offset
/// after the time and the time zone in square brackets, each where the text
/// has it. The answer depends on the text alone. The parser accepts hours
/// up to 23 and minutes up to 59 in an offset.
#[verifier::external_body]
pub(crate) fn parse_date_time(source: &str) -> (r: Result<ZoneParts, ParseError>)
    ensures
        found_parts(r) == parsed_date_time(source@),
        r matches Ok(parts) ==> parts@.in_clock_range(),
{
    let record = IxdtfParser::from_str(source).parse()?;
    let own = |m: MinutePrecisionOffset| MinuteOffset { sign: match m.sign { ixdtf::records::Sign::Positive => Sign::Positive, ixdtf::records::Sign::Negative => Sign::Negative }, hour: m.hour, minute: m.minute };
    let offset = record.offset.map(|o| match o {
        UtcOffsetRecordOrZ::Offset(UtcOffsetRecord::MinutePrecision(m)) => OffsetDesignator::MinutePrecision(own(m)),
        UtcOffsetRecordOrZ::Offset(_) => OffsetDesignator::FullPrecision,
        UtcOffsetRecordOrZ::Z => OffsetDesignator::Z
    });
    let annotation = record.tz.map(|a| match a.tz {
        TimeZoneRecord::Name(name) => ZoneRecord::Name(name.to_vec()),
        TimeZoneRecord::Offset(m) => ZoneRecord::Offset(own(m)),
        _ => ZoneRecord::Other
    });
    Ok(ZoneParts { offset, annotation })
}

/// `IxdtfParser::parse_time` of ixdtf on the text, which it reads as
/// a time of day, with what this crate keeps of its record: the offset
/// after the time and the time zone in square brackets, each where the text
/// has it. The answer depends on the text alone. The parser accepts hours
/// up to 23 and minutes up to 59 in an offset.
#[verifier::external_body]
pub(crate) fn parse_time(source: &str) -> (r: Result<ZoneParts, ParseError>)
    ensures
        found_parts(r) == parsed_time(source@),
        r matches Ok(parts) ==> parts@.in_clock_range(),
{
    let record = IxdtfParser::from_str(source).parse_time()?;
    let own = |m: MinutePrecisionOffset| MinuteOffset { sign: match m.sign { ixdtf::records::Sign::Positive => Sign::Positive, ixdtf::records::Sign::Negative => Sign::Negative }, hour: m.hour, minute: m.minute };
    let offset = record.offset.map(|o| match o {
        UtcOffsetRecordOrZ::Offset(UtcOffsetRecord::MinutePrecision(m)) => OffsetDesignator::MinutePrecision(own(m)),
        UtcOffsetRecordOrZ::Offset(_) => OffsetDesignator::FullPrecision,
        UtcOffsetRecordOrZ::Z => OffsetDesignator::Z
    });
    let annotation = record.tz.map(|a| match a.tz {
        TimeZoneRecord::Name(name) => ZoneRecord::Name(name.to_vec()),
        TimeZoneRecord::Offset(m) => ZoneRecord::Offset(own(m)),
        _ => ZoneRecord::Other
    });
    Ok(ZoneParts { offset, annotation })
}

/// `IxdtfParser::parse_year_month` of ixdtf on the text, which it reads as
/// a year and month, with what this crate keeps of its record: the offset
/// after the time and the time zone in square brackets, each where the text
/// has it. The answer depends on the text alone. The parser accepts hours
/// up to 23 and minutes up to 59 in an offset.
#[verifier::external_body]
pub(crate) fn parse_year_month(source: &str) -> (r: Result<ZoneParts, ParseError>)
    ensures
        found_parts(r) == parsed_year_month(source@),
        r matches Ok(parts) ==> parts@.in_clock_range(),
{
    let record = IxdtfParser::from_str(source).parse_year_month()?;
    let own = |m: MinutePrecisionOffset| MinuteOffset { sign: match m.sign { ixdtf::records::Sign::Positive => Sign::Positive, ixdtf::records::Sign::Negative => Sign::Negative }, hour: m.hour, minute: m.minute };
    let offset = record.offset.map(|o| match o {
        UtcOffsetRecordOrZ::Offset(UtcOffsetRecord::MinutePrecision(m)) => OffsetDesignator::MinutePrecision(own(m)),
        UtcOffsetRecordOrZ::Offset(_) => OffsetDesignator::FullPrecision,
        UtcOffsetRecordOrZ::Z => OffsetDesignator::Z
    });
    let annotation = record.tz.map(|a| match a.tz {
        TimeZoneRecord::Name(name) => ZoneRecord::Name(name.to_vec()),
        TimeZoneRecord::Offset(m) => ZoneRecord::Offset(own(m)),
        _ => ZoneRecord::Other
    });
    Ok(ZoneParts { offset, annotation })
}

/// `IxdtfParser::parse_month_day` of ixdtf on the text, which it reads as
/// a month and day, with what this crate keeps of its record: the offset
/// after the time and the time zone in square brackets, each where the text
/// has it. The answer depends on the text alone. The parser accepts hours
/// up to 23 and minutes up to 59 in an offset.
#[verifier::external_body]
pub(crate) fn parse_month_day(source: &str) -> (r: Result<ZoneParts, ParseError>)
    ensures
        found_parts(r) == parsed_month_day(source@),
        r matches Ok(parts) ==> parts@.in_clock_range(),
{
    let record = IxdtfParser::from_str(source).parse_month_day()?;
    let own = |m: MinutePrecisionOffset| MinuteOffset { sign: match m.sign { ixdtf::records::Sign::Positive => Sign::Positive, ixdtf::records::Sign::Negative => Sign::Negative }, hour: m.hour, minute: m.minute };
    let offset = record.offset.map(|o| match o {
        UtcOffsetRecordOrZ::Offset(UtcOffsetRecord::MinutePrecision(m)) => OffsetDesignator::MinutePrecision(own(m)),
        UtcOffsetRecordOrZ::Offset(_) => OffsetDesignator::FullPrecision,
        UtcOffsetRecordOrZ::Z => OffsetDesignator::Z
    });
    let annotation = record.tz.map(|a| match a.tz {
        TimeZoneRecord::Name(name) => ZoneRecord::Name(name.to_vec()),
        TimeZoneRecord::Offset(m) => ZoneRecord::Offset(own(m)),
        _ => ZoneRecord::Other
    });
    Ok(ZoneParts { offset, annotation })
}

} // verus!
