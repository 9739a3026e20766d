//! The locale-data surface: thin trusted wrappers around the locale
//! formatters (decimal rendering, plural rules, date/time/zone rendering),
//! each with its result named as a pure function of the locale string and the
//! plain values handed in, and a per-locale memoizer that constructs each
//! formatter at most once per option key.

use vstd::prelude::*;
use vstd::string::StringExecFns;

use icu::datetime::time_zone::FallbackFormat;
use icu::datetime::time_zone::IsoFormat;
use icu::datetime::time_zone::IsoMinutes;
use icu::datetime::time_zone::IsoSeconds;

use crate::number::FluentNumberGrouping;

verus! {

#[verifier::external_type_specification]
#[verifier::external_body]
pub struct ExFixedDecimalFormatter(icu::decimal::FixedDecimalFormatter);

#[verifier::external_type_specification]
#[verifier::external_body]
pub struct ExPluralRules(icu::plurals::PluralRules);

#[verifier::external_type_specification]
#[verifier::external_body]
pub struct ExDateFormatter(icu::datetime::DateFormatter);

#[verifier::external_type_specification]
#[verifier::external_body]
pub struct ExDateTimeFormatter(icu::datetime::DateTimeFormatter);

#[verifier::external_type_specification]
#[verifier::external_body]
pub struct ExTimeFormatter(icu::datetime::TimeFormatter);

#[verifier::external_type_specification]
#[verifier::external_body]
pub struct ExZonedDateTimeFormatter(icu::datetime::ZonedDateTimeFormatter);

#[verifier::external_type_specification]
#[verifier::external_body]
pub struct ExTimeZoneFormatter(icu::datetime::time_zone::TimeZoneFormatter);

/// What the locale's decimal formatter renders for a plain digit string
/// (optional sign, digits, at most one point), under a grouping strategy
/// code. A malformed digit string renders as empty.
pub uninterp spec fn decimal_format_of(locale: Seq<char>, grouping: u8, digits: Seq<char>) -> Seq<
    char,
>;

/// Whether decimal-formatter construction succeeds for the locale string and
/// grouping code; construction against compiled locale data is deterministic.
pub uninterp spec fn decimal_formatter_exists(locale: Seq<char>, grouping: u8) -> bool;

/// The plural category (0 zero, 1 one, 2 two, 3 few, 4 many, 5 other) the
/// locale's cardinal or ordinal rules assign to operands read from a plain
/// decimal string; a malformed string maps to the category "other".
pub uninterp spec fn plural_category_of(locale: Seq<char>, cardinal: bool, operands: Seq<
    char,
>) -> u8;

/// Whether plural-rule construction succeeds for the locale string and rule
/// type.
pub uninterp spec fn plural_rules_exist(locale: Seq<char>, cardinal: bool) -> bool;

/// What the locale's date formatter renders for a date-time instant, under a
/// date-length code (0 full, 1 long, 2 medium, 3 short). Only the Gregorian
/// date shows in the output, but the whole instant is validated first, so the
/// result is a function of all six components: any out-of-range component
/// renders as empty.
pub uninterp spec fn date_format_of(
    locale: Seq<char>,
    date_len: u8,
    y: int,
    mo: int,
    d: int,
    h: int,
    mi: int,
    s: int,
) -> Seq<char>;

pub uninterp spec fn date_formatter_exists(locale: Seq<char>, date_len: u8) -> bool;

/// What the locale's combined date-time formatter renders for a Gregorian
/// date-time, under date- and time-length codes.
pub uninterp spec fn datetime_format_of(
    locale: Seq<char>,
    date_len: u8,
    time_len: u8,
    y: int,
    mo: int,
    d: int,
    h: int,
    mi: int,
    s: int,
) -> Seq<char>;

pub uninterp spec fn datetime_formatter_exists(locale: Seq<char>, date_len: u8, time_len: u8) -> bool;

/// What the locale's time formatter renders for a date-time instant, under a
/// time-length code. Only the time of day shows in the output, but the whole
/// instant is validated first, so the result is a function of all six
/// components: any out-of-range component renders as empty.
pub uninterp spec fn time_format_of(
    locale: Seq<char>,
    time_len: u8,
    y: int,
    mo: int,
    d: int,
    h: int,
    mi: int,
    s: int,
) -> Seq<char>;

pub uninterp spec fn time_formatter_exists(locale: Seq<char>, time_len: u8) -> bool;

/// What the locale's zoned date-time formatter renders, under date- and
/// time-length codes, a time-zone style code, and a GMT offset in seconds.
pub uninterp spec fn zoned_format_of(
    locale: Seq<char>,
    date_len: u8,
    time_len: u8,
    tz: u8,
    y: int,
    mo: int,
    d: int,
    h: int,
    mi: int,
    s: int,
    offset: int,
) -> Seq<char>;

pub uninterp spec fn zoned_formatter_exists(locale: Seq<char>, date_len: u8, time_len: u8, tz: u8) -> bool;

/// What the locale's time-zone formatter renders for a GMT offset in seconds,
/// under a time-zone style code.
pub uninterp spec fn zone_format_of(locale: Seq<char>, tz: u8, offset: int) -> Seq<char>;

pub uninterp spec fn zone_formatter_exists(locale: Seq<char>, tz: u8) -> bool;

/// A decimal formatter constructed for one locale and grouping strategy.
pub struct DecimalFormatter {
    locale: String,
    grouping: u8,
    inner: icu::decimal::FixedDecimalFormatter,
}

impl DecimalFormatter {
    pub closed spec fn locale_view(&self) -> Seq<char> {
        self.locale@
    }

    pub closed spec fn grouping_code(&self) -> u8 {
        self.grouping
    }
}

/// Relies on `icu::decimal::FixedDecimalFormatter::try_new` (with compiled
/// locale data) and `icu::locid::Locale` parsing: both are deterministic in
/// the locale string and the grouping strategy.
#[verifier::external_body]
fn new_decimal_formatter(locale: &str, grouping: FluentNumberGrouping) -> (r: Option<
    DecimalFormatter,
>)
    ensures
        r is Some <==> decimal_formatter_exists(locale@, grouping.spec_code()),
        r matches Some(h) ==> h.locale_view() == locale@ && h.grouping_code()
            == grouping.spec_code(),
{
    let loc: icu::locid::Locale = match locale.parse() {
        Ok(l) => l,
        Err(_) => return None,
    };
    let strategy = match grouping {
        FluentNumberGrouping::Always => icu::decimal::options::GroupingStrategy::Always,
        FluentNumberGrouping::Auto => icu::decimal::options::GroupingStrategy::Auto,
        FluentNumberGrouping::Min2 => icu::decimal::options::GroupingStrategy::Min2,
        FluentNumberGrouping::Never => icu::decimal::options::GroupingStrategy::Never,
    };
    let opts = icu::decimal::options::FixedDecimalFormatterOptions::from(strategy);
    icu::decimal::FixedDecimalFormatter::try_new(&(&loc).into(), opts).ok().map(
        |inner| DecimalFormatter { locale: locale.to_owned(), grouping: grouping.code(), inner },
    )
}

/// Relies on `icu::decimal::FixedDecimalFormatter::format_to_string` over a
/// `fixed_decimal::FixedDecimal` parsed from the digit string: the rendering
/// depends only on the formatter's locale and grouping and on the digits; a
/// string that is not a plain decimal renders as empty.
#[verifier::external_body]
fn format_decimal_with(f: &DecimalFormatter, digits: &str) -> (r: String)
    ensures
        r@ == decimal_format_of(f.locale_view(), f.grouping_code(), digits@),
{
    match digits.parse::<fixed_decimal::FixedDecimal>() {
        Ok(d) => f.inner.format_to_string(&d),
        Err(_) => String::new(),
    }
}

/// Plural rules constructed for one locale and rule type.
pub struct PluralRulesHandle {
    locale: String,
    cardinal: bool,
    inner: icu::plurals::PluralRules,
}

impl PluralRulesHandle {
    pub closed spec fn locale_view(&self) -> Seq<char> {
        self.locale@
    }

    pub closed spec fn is_cardinal(&self) -> bool {
        self.cardinal
    }
}

/// Relies on `icu::plurals::PluralRules::try_new` (with compiled locale data)
/// and `icu::locid::Locale` parsing: both are deterministic in the locale
/// string and the rule type.
#[verifier::external_body]
fn new_plural_rules(locale: &str, cardinal: bool) -> (r: Option<PluralRulesHandle>)
    ensures
        r is Some <==> plural_rules_exist(locale@, cardinal),
        r matches Some(h) ==> h.locale_view() == locale@ && h.is_cardinal() == cardinal,
{
    let loc: icu::locid::Locale = match locale.parse() {
        Ok(l) => l,
        Err(_) => return None,
    };
    let ty = if cardinal {
        icu::plurals::PluralRuleType::Cardinal
    } else {
        icu::plurals::PluralRuleType::Ordinal
    };
    icu::plurals::PluralRules::try_new(&(&loc).into(), ty).ok().map(
        |inner| PluralRulesHandle { locale: locale.to_owned(), cardinal, inner },
    )
}

/// Relies on `icu::plurals::PluralRules::category_for` over
/// `icu::plurals::PluralOperands` parsed from the decimal string: the
/// category depends only on the rules' locale and type and on the operand
/// string; a malformed string maps to "other" (code 5).
#[verifier::external_body]
fn plural_category_with(p: &PluralRulesHandle, operands: &str) -> (r: u8)
    ensures
        r == plural_category_of(p.locale_view(), p.is_cardinal(), operands@),
        r <= 5,
{
    match operands.parse::<icu::plurals::PluralOperands>() {
        Ok(op) => match p.inner.category_for(op) {
            icu::plurals::PluralCategory::Zero => 0,
            icu::plurals::PluralCategory::One => 1,
            icu::plurals::PluralCategory::Two => 2,
            icu::plurals::PluralCategory::Few => 3,
            icu::plurals::PluralCategory::Many => 4,
            icu::plurals::PluralCategory::Other => 5,
        },
        Err(_) => 5,
    }
}

/// The CLDR name of a plural-category code.
pub open spec fn spec_category_name(c: u8) -> Seq<char> {
    if c == 0 {
        "zero"@
    } else if c == 1 {
        "one"@
    } else if c == 2 {
        "two"@
    } else if c == 3 {
        "few"@
    } else if c == 4 {
        "many"@
    } else {
        "other"@
    }
}

pub fn category_name(c: u8) -> (r: &'static str)
    ensures
        r@ == spec_category_name(c),
{
    if c == 0 {
        "zero"
    } else if c == 1 {
        "one"
    } else if c == 2 {
        "two"
    } else if c == 3 {
        "few"
    } else if c == 4 {
        "many"
    } else {
        "other"
    }
}

} // verus!

verus! {

/// The plain components of a timezone-aware instant: a Gregorian calendar
/// date, a time of day, and a GMT offset in seconds.
#[derive(Debug, Copy, Clone, PartialEq, Eq, Structural)]
pub struct DateTimeParts {
    pub year: i32,
    pub month: u8,
    pub day: u8,
    pub hour: u8,
    pub minute: u8,
    pub second: u8,
    pub offset_seconds: i32,
}

/// A date formatter constructed for one locale and date length.
pub struct DateFormatterH {
    locale: String,
    date_len: u8,
    inner: icu::datetime::DateFormatter,
}

impl DateFormatterH {
    pub closed spec fn locale_view(&self) -> Seq<char> {
        self.locale@
    }

    pub closed spec fn date_len(&self) -> u8 {
        self.date_len
    }
}

/// A combined date-time formatter constructed for one locale and length pair.
pub struct DateTimeFormatterH {
    locale: String,
    date_len: u8,
    time_len: u8,
    inner: icu::datetime::DateTimeFormatter,
}

impl DateTimeFormatterH {
    pub closed spec fn locale_view(&self) -> Seq<char> {
        self.locale@
    }

    pub closed spec fn date_len(&self) -> u8 {
        self.date_len
    }

    pub closed spec fn time_len(&self) -> u8 {
        self.time_len
    }
}

/// A time formatter constructed for one locale and time length.
pub struct TimeFormatterH {
    locale: String,
    time_len: u8,
    inner: icu::datetime::TimeFormatter,
}

impl TimeFormatterH {
    pub closed spec fn locale_view(&self) -> Seq<char> {
        self.locale@
    }

    pub closed spec fn time_len(&self) -> u8 {
        self.time_len
    }
}

/// A zoned date-time formatter constructed for one locale, length pair and
/// time-zone style.
pub struct ZonedFormatterH {
    locale: String,
    date_len: u8,
    time_len: u8,
    tz: u8,
    inner: icu::datetime::ZonedDateTimeFormatter,
}

impl ZonedFormatterH {
    pub closed spec fn locale_view(&self) -> Seq<char> {
        self.locale@
    }

    pub closed spec fn date_len(&self) -> u8 {
        self.date_len
    }

    pub closed spec fn time_len(&self) -> u8 {
        self.time_len
    }

    pub closed spec fn tz(&self) -> u8 {
        self.tz
    }
}

/// A time-zone formatter constructed for one locale and time-zone style.
pub struct ZoneFormatterH {
    locale: String,
    tz: u8,
    inner: icu::datetime::time_zone::TimeZoneFormatter,
}

impl ZoneFormatterH {
    pub closed spec fn locale_view(&self) -> Seq<char> {
        self.locale@
    }

    pub closed spec fn tz(&self) -> u8 {
        self.tz
    }
}

#[verifier::external_type_specification]
#[verifier::external_body]
pub struct ExLengthDate(icu::datetime::options::length::Date);

#[verifier::external_type_specification]
#[verifier::external_body]
pub struct ExLengthTime(icu::datetime::options::length::Time);

#[verifier::external_type_specification]
#[verifier::external_body]
pub struct ExTimeZoneFormatterOptions(icu::datetime::time_zone::TimeZoneFormatterOptions);

#[verifier::external_type_specification]
#[verifier::external_body]
pub struct ExCustomTimeZone(icu::timezone::CustomTimeZone);

/// Converts a date-length code to the locale formatter's date length: 0 full,
/// 1 long, 3 short; other codes fall back to medium.
#[verifier::external_body]
fn date_length_of(code: u8) -> icu::datetime::options::length::Date {
    match code {
        0 => icu::datetime::options::length::Date::Full,
        1 => icu::datetime::options::length::Date::Long,
        3 => icu::datetime::options::length::Date::Short,
        _ => icu::datetime::options::length::Date::Medium,
    }
}

/// Converts a time-length code, as [`date_length_of`] does for dates.
#[verifier::external_body]
fn time_length_of(code: u8) -> icu::datetime::options::length::Time {
    match code {
        0 => icu::datetime::options::length::Time::Full,
        1 => icu::datetime::options::length::Time::Long,
        3 => icu::datetime::options::length::Time::Short,
        _ => icu::datetime::options::length::Time::Medium,
    }
}

/// The components a zone-style code packs: whether the code selects the
/// localized-GMT style, and otherwise the ISO format, minutes and seconds
/// codes of `1 + f + 4*m + 8*s`.
pub open spec fn spec_tz_components(code: u8) -> (bool, u8, u8, u8) {
    if code == 0 {
        (true, 0u8, 0u8, 0u8)
    } else {
        let c = (code - 1) as u8;
        (false, (c % 4) as u8, ((c / 4) % 2) as u8, ((c / 8) % 2) as u8)
    }
}

/// Unpacks a zone-style code into its plain components.
pub fn tz_components(code: u8) -> (r: (bool, u8, u8, u8))
    ensures
        r == spec_tz_components(code),
{
    if code == 0 {
        (true, 0, 0, 0)
    } else {
        let c = code - 1;
        (false, c % 4, (c / 4) % 2, (c / 8) % 2)
    }
}

/// Converts plain zone-style components to the formatter's fallback format:
/// the localized-GMT style, or the ISO-8601 form `f` (0 basic, 1 extended,
/// 2 UTC basic, 3 UTC extended) with minutes optional when `m` is 1 and
/// seconds never when `s` is 1.
#[verifier::external_body]
fn tz_options_of(gmt: bool, f: u8, m: u8, s: u8) -> icu::datetime::time_zone::TimeZoneFormatterOptions {
    let fb = if gmt {
        FallbackFormat::LocalizedGmt
    } else {
        let fs = [IsoFormat::Basic, IsoFormat::Extended, IsoFormat::UtcBasic, IsoFormat::UtcExtended];
        let mm = if m == 0 { IsoMinutes::Required } else { IsoMinutes::Optional };
        let ss = if s == 0 { IsoSeconds::Optional } else { IsoSeconds::Never };
        FallbackFormat::Iso8601(fs[(f % 4) as usize], mm, ss)
    };
    icu::datetime::time_zone::TimeZoneFormatterOptions::from(fb)
}

/// Converts the GMT offset to the formatters' time-zone value, relying on
/// `icu::timezone::GmtOffset::try_from_offset_seconds`; offsets beyond the
/// representable range fall back to UTC.
#[verifier::external_body]
fn icu_zone_of(parts: &DateTimeParts) -> icu::timezone::CustomTimeZone {
    let offset = icu::timezone::GmtOffset::try_from_offset_seconds(parts.offset_seconds)
        .unwrap_or(icu::timezone::GmtOffset::utc());
    icu::timezone::CustomTimeZone::new_with_offset(offset)
}

/// Relies on `icu::datetime::DateFormatter::try_new_with_length` (compiled
/// locale data): deterministic in the locale string and the date length.
#[verifier::external_body]
fn new_date_formatter(locale: &str, date_len: u8) -> (r: Option<DateFormatterH>)
    ensures
        r is Some <==> date_formatter_exists(locale@, date_len),
        r matches Some(h) ==> h.locale_view() == locale@ && h.date_len() == date_len,
{
    let loc: icu::locid::Locale = match locale.parse() {
        Ok(l) => l,
        Err(_) => return None,
    };
    icu::datetime::DateFormatter::try_new_with_length(&(&loc).into(), date_length_of(date_len))
        .ok()
        .map(|inner| DateFormatterH { locale: locale.to_owned(), date_len, inner })
}

/// Relies on `icu::datetime::DateFormatter::format_to_string` over a
/// Gregorian date-time converted to the formatter's calendar: deterministic
/// in the formatter's locale and length and in all six components (the whole
/// instant is validated before the date part is rendered); an invalid instant
/// or a calendar mismatch renders as empty.
#[verifier::external_body]
fn format_date_with(f: &DateFormatterH, parts: &DateTimeParts) -> (r: String)
    ensures
        r@ == date_format_of(
            f.locale_view(),
            f.date_len(),
            parts.year as int,
            parts.month as int,
            parts.day as int,
            parts.hour as int,
            parts.minute as int,
            parts.second as int,
        ),
{
    let dt = icu::calendar::DateTime::try_new_gregorian_datetime(
        parts.year, parts.month, parts.day, parts.hour, parts.minute, parts.second,
    );
    match dt {
        Ok(d) => f.inner.format_to_string(&d.to_iso().to_any()).unwrap_or_default(),
        Err(_) => String::new(),
    }
}

/// Relies on `icu::datetime::DateTimeFormatter::try_new` (compiled locale
/// data) with a length bag: deterministic in the locale string and lengths.
#[verifier::external_body]
fn new_datetime_formatter(locale: &str, date_len: u8, time_len: u8) -> (r: Option<
    DateTimeFormatterH,
>)
    ensures
        r is Some <==> datetime_formatter_exists(locale@, date_len, time_len),
        r matches Some(h) ==> h.locale_view() == locale@ && h.date_len() == date_len
            && h.time_len() == time_len,
{
    let loc: icu::locid::Locale = match locale.parse() {
        Ok(l) => l,
        Err(_) => return None,
    };
    let options = icu::datetime::DateTimeFormatterOptions::Length(
        icu::datetime::options::length::Bag::from_date_time_style(
            date_length_of(date_len),
            time_length_of(time_len),
        ),
    );
    icu::datetime::DateTimeFormatter::try_new(&(&loc).into(), options).ok().map(
        |inner| DateTimeFormatterH { locale: locale.to_owned(), date_len, time_len, inner },
    )
}

/// Relies on `icu::datetime::DateTimeFormatter::format_to_string`, as
/// [`format_date_with`] relies on the date formatter.
#[verifier::external_body]
fn format_datetime_with(f: &DateTimeFormatterH, parts: &DateTimeParts) -> (r: String)
    ensures
        r@ == datetime_format_of(
            f.locale_view(),
            f.date_len(),
            f.time_len(),
            parts.year as int,
            parts.month as int,
            parts.day as int,
            parts.hour as int,
            parts.minute as int,
            parts.second as int,
        ),
{
    let dt = icu::calendar::DateTime::try_new_gregorian_datetime(
        parts.year, parts.month, parts.day, parts.hour, parts.minute, parts.second,
    );
    match dt {
        Ok(d) => f.inner.format_to_string(&d.to_iso().to_any()).unwrap_or_default(),
        Err(_) => String::new(),
    }
}

/// Relies on `icu::datetime::TimeFormatter::try_new_with_length` (compiled
/// locale data): deterministic in the locale string and the time length.
#[verifier::external_body]
fn new_time_formatter(locale: &str, time_len: u8) -> (r: Option<TimeFormatterH>)
    ensures
        r is Some <==> time_formatter_exists(locale@, time_len),
        r matches Some(h) ==> h.locale_view() == locale@ && h.time_len() == time_len,
{
    let loc: icu::locid::Locale = match locale.parse() {
        Ok(l) => l,
        Err(_) => return None,
    };
    icu::datetime::TimeFormatter::try_new_with_length(&(&loc).into(), time_length_of(time_len))
        .ok()
        .map(|inner| TimeFormatterH { locale: locale.to_owned(), time_len, inner })
}

/// Relies on `icu::datetime::TimeFormatter::format_to_string`: deterministic
/// in the formatter's locale and length and in all six components (the whole
/// instant is validated before the time part is rendered); an invalid instant
/// renders as empty.
#[verifier::external_body]
fn format_time_with(f: &TimeFormatterH, parts: &DateTimeParts) -> (r: String)
    ensures
        r@ == time_format_of(
            f.locale_view(),
            f.time_len(),
            parts.year as int,
            parts.month as int,
            parts.day as int,
            parts.hour as int,
            parts.minute as int,
            parts.second as int,
        ),
{
    let dt = icu::calendar::DateTime::try_new_gregorian_datetime(
        parts.year, parts.month, parts.day, parts.hour, parts.minute, parts.second,
    );
    match dt {
        Ok(d) => f.inner.format_to_string(&d.to_iso().to_any()),
        Err(_) => String::new(),
    }
}

/// Relies on `icu::datetime::ZonedDateTimeFormatter::try_new` (compiled
/// locale data): deterministic in the locale string, lengths and zone style.
#[verifier::external_body]
fn new_zoned_formatter(locale: &str, date_len: u8, time_len: u8, tz: u8) -> (r: Option<
    ZonedFormatterH,
>)
    ensures
        r is Some <==> zoned_formatter_exists(locale@, date_len, time_len, tz),
        r matches Some(h) ==> h.locale_view() == locale@ && h.date_len() == date_len
            && h.time_len() == time_len && h.tz() == tz,
{
    let loc: icu::locid::Locale = match locale.parse() {
        Ok(l) => l,
        Err(_) => return None,
    };
    let bag = icu::datetime::options::length::Bag::from_date_time_style(
        date_length_of(date_len),
        time_length_of(time_len),
    );
    let options = icu::datetime::DateTimeFormatterOptions::Length(bag);
    let c = tz_components(tz);
    let zopts = tz_options_of(c.0, c.1, c.2, c.3);
    icu::datetime::ZonedDateTimeFormatter::try_new(&(&loc).into(), options, zopts).ok().map(
        |inner| ZonedFormatterH { locale: locale.to_owned(), date_len, time_len, tz, inner },
    )
}

/// Relies on `icu::datetime::ZonedDateTimeFormatter::format_to_string` over
/// the converted date-time and GMT-offset zone: deterministic in the
/// formatter's locale, lengths and zone style and in the plain components.
#[verifier::external_body]
fn format_zoned_with(f: &ZonedFormatterH, parts: &DateTimeParts) -> (r: String)
    ensures
        r@ == zoned_format_of(
            f.locale_view(),
            f.date_len(),
            f.time_len(),
            f.tz(),
            parts.year as int,
            parts.month as int,
            parts.day as int,
            parts.hour as int,
            parts.minute as int,
            parts.second as int,
            parts.offset_seconds as int,
        ),
{
    let dt = icu::calendar::DateTime::try_new_gregorian_datetime(
        parts.year, parts.month, parts.day, parts.hour, parts.minute, parts.second,
    );
    match dt {
        Ok(d) => f.inner.format_to_string(&d.to_iso().to_any(), &icu_zone_of(parts)).unwrap_or_default(),
        Err(_) => String::new(),
    }
}

/// Relies on `icu::datetime::time_zone::TimeZoneFormatter::try_new` (compiled
/// locale data): deterministic in the locale string and zone style.
#[verifier::external_body]
fn new_zone_formatter(locale: &str, tz: u8) -> (r: Option<ZoneFormatterH>)
    ensures
        r is Some <==> zone_formatter_exists(locale@, tz),
        r matches Some(h) ==> h.locale_view() == locale@ && h.tz() == tz,
{
    let loc: icu::locid::Locale = match locale.parse() {
        Ok(l) => l,
        Err(_) => return None,
    };
    let c = tz_components(tz);
    icu::datetime::time_zone::TimeZoneFormatter::try_new(
        &(&loc).into(),
        tz_options_of(c.0, c.1, c.2, c.3),
    ).ok()
        .map(|inner| ZoneFormatterH { locale: locale.to_owned(), tz, inner })
}

/// Relies on `icu::datetime::time_zone::TimeZoneFormatter::format_to_string`
/// over the GMT-offset zone: deterministic in the formatter's locale and zone
/// style and in the offset.
#[verifier::external_body]
fn format_zone_with(f: &ZoneFormatterH, parts: &DateTimeParts) -> (r: String)
    ensures
        r@ == zone_format_of(f.locale_view(), f.tz(), parts.offset_seconds as int),
{
    f.inner.format_to_string(&icu_zone_of(parts))
}

} // verus!

verus! {

/// Which date/time formatter a set of options selects: exactly one of the
/// five families, chosen from which styles are visible.
#[derive(Debug, Copy, Clone, PartialEq, Eq, Structural)]
pub enum FormatterPlan {
    /// Date only, with a date-length code.
    PDate(u8),
    /// Date and time, with date- and time-length codes.
    PDateTime(u8, u8),
    /// Time only, with a time-length code.
    PTime(u8),
    /// Date, time and zone, with date- and time-length and zone-style codes.
    PZoned(u8, u8, u8),
    /// Zone only, with a zone-style code.
    PZone(u8),
}

impl FormatterPlan {
    /// An injective cache key for the plan.
    pub open spec fn spec_key(self) -> int {
        match self {
            FormatterPlan::PDate(d) => 100000000 + d as u32,
            FormatterPlan::PDateTime(d, t) => 200000000 + d as u32 + 256 * (t as u32),
            FormatterPlan::PTime(t) => 300000000 + t as u32,
            FormatterPlan::PZoned(d, t, z) => 400000000 + d as u32 + 256 * (t as u32) + 65536 * (
            z as u32),
            FormatterPlan::PZone(z) => 500000000 + z as u32,
        }
    }

    pub fn key(&self) -> (r: u32)
        ensures
            r as int == self.spec_key(),
    {
        match *self {
            FormatterPlan::PDate(d) => 100000000 + d as u32,
            FormatterPlan::PDateTime(d, t) => 200000000 + d as u32 + 256 * (t as u32),
            FormatterPlan::PTime(t) => 300000000 + t as u32,
            FormatterPlan::PZoned(d, t, z) => 400000000 + d as u32 + 256 * (t as u32) + 65536 * (
            z as u32),
            FormatterPlan::PZone(z) => 500000000 + z as u32,
        }
    }

    /// Whether the plan's formatter can be constructed for the locale.
    pub open spec fn spec_exists(self, locale: Seq<char>) -> bool {
        match self {
            FormatterPlan::PDate(d) => date_formatter_exists(locale, d),
            FormatterPlan::PDateTime(d, t) => datetime_formatter_exists(locale, d, t),
            FormatterPlan::PTime(t) => time_formatter_exists(locale, t),
            FormatterPlan::PZoned(d, t, z) => zoned_formatter_exists(locale, d, t, z),
            FormatterPlan::PZone(z) => zone_formatter_exists(locale, z),
        }
    }

    /// What the plan's formatter renders for the given components.
    pub open spec fn spec_format(self, locale: Seq<char>, p: DateTimeParts) -> Seq<char> {
        match self {
            FormatterPlan::PDate(d) => date_format_of(
                locale,
                d,
                p.year as int,
                p.month as int,
                p.day as int,
                p.hour as int,
                p.minute as int,
                p.second as int,
            ),
            FormatterPlan::PDateTime(d, t) => datetime_format_of(
                locale,
                d,
                t,
                p.year as int,
                p.month as int,
                p.day as int,
                p.hour as int,
                p.minute as int,
                p.second as int,
            ),
            FormatterPlan::PTime(t) => time_format_of(
                locale,
                t,
                p.year as int,
                p.month as int,
                p.day as int,
                p.hour as int,
                p.minute as int,
                p.second as int,
            ),
            FormatterPlan::PZoned(d, t, z) => zoned_format_of(
                locale,
                d,
                t,
                z,
                p.year as int,
                p.month as int,
                p.day as int,
                p.hour as int,
                p.minute as int,
                p.second as int,
                p.offset_seconds as int,
            ),
            FormatterPlan::PZone(z) => zone_format_of(locale, z, p.offset_seconds as int),
        }
    }
}

/// One constructed date/time formatter of any family.
pub enum AnyDateTimeFormatter {
    Date(DateFormatterH),
    DateTime(DateTimeFormatterH),
    Time(TimeFormatterH),
    Zoned(ZonedFormatterH),
    Zone(ZoneFormatterH),
}

impl AnyDateTimeFormatter {
    /// The handle serves exactly this plan for this locale.
    pub open spec fn matches(&self, locale: Seq<char>, plan: FormatterPlan) -> bool {
        match *self {
            AnyDateTimeFormatter::Date(h) => plan == FormatterPlan::PDate(h.date_len())
                && h.locale_view() == locale,
            AnyDateTimeFormatter::DateTime(h) => plan == FormatterPlan::PDateTime(
                h.date_len(),
                h.time_len(),
            ) && h.locale_view() == locale,
            AnyDateTimeFormatter::Time(h) => plan == FormatterPlan::PTime(h.time_len())
                && h.locale_view() == locale,
            AnyDateTimeFormatter::Zoned(h) => plan == FormatterPlan::PZoned(
                h.date_len(),
                h.time_len(),
                h.tz(),
            ) && h.locale_view() == locale,
            AnyDateTimeFormatter::Zone(h) => plan == FormatterPlan::PZone(h.tz())
                && h.locale_view() == locale,
        }
    }
}

/// A per-locale memoizer of formatter objects, keyed by the option values the
/// formatter was built from. Construction loads locale data and is the
/// expensive path; each unique key constructs at most once for the lifetime
/// of the memoizer.
pub struct IntlLangMemoizer {
    locale: String,
    decimal_formatters: Vec<DecimalFormatter>,
    plural_cardinal: Option<PluralRulesHandle>,
    plural_ordinal: Option<PluralRulesHandle>,
    datetime_formatters: Vec<(u32, FormatterPlan, AnyDateTimeFormatter)>,
}

impl IntlLangMemoizer {
    /// The locale string every cached formatter was constructed for.
    pub closed spec fn locale_view(&self) -> Seq<char> {
        self.locale@
    }

    /// Every cached handle belongs to this locale and to the key it is filed
    /// under.
    pub closed spec fn wf(&self) -> bool {
        &&& (forall|i: int|
            0 <= i < self.decimal_formatters@.len() ==> {
                &&& (#[trigger] self.decimal_formatters@[i]).locale_view() == self.locale@
                &&& decimal_formatter_exists(
                    self.locale@,
                    self.decimal_formatters@[i].grouping_code(),
                )
            })
        &&& (self.plural_cardinal matches Some(p) ==> p.locale_view() == self.locale@
            && p.is_cardinal() && plural_rules_exist(self.locale@, true))
        &&& (self.plural_ordinal matches Some(p) ==> p.locale_view() == self.locale@
            && !p.is_cardinal() && plural_rules_exist(self.locale@, false))
        &&& (forall|i: int|
            0 <= i < self.datetime_formatters@.len() ==> {
                &&& (#[trigger] self.datetime_formatters@[i]).2.matches(
                    self.locale@,
                    self.datetime_formatters@[i].1,
                )
                &&& self.datetime_formatters@[i].0 as int == self.datetime_formatters@[i].1.spec_key()
                &&& self.datetime_formatters@[i].1.spec_exists(self.locale@)
            })
    }

    /// A fresh memoizer for one locale, with nothing constructed yet.
    pub fn new(locale: String) -> (r: Self)
        ensures
            r.wf(),
            r.locale_view() == locale@,
    {
        IntlLangMemoizer {
            locale,
            decimal_formatters: Vec::new(),
            plural_cardinal: None,
            plural_ordinal: None,
            datetime_formatters: Vec::new(),
        }
    }

    /// The locale string, for reuse in contracts and keys.
    pub fn locale_str(&self) -> (r: &str)
        ensures
            r@ == self.locale_view(),
    {
        self.locale.as_str()
    }

    /// Renders a digit string through the locale's decimal formatter under
    /// the given grouping, constructing and caching the formatter on first
    /// use; nothing is rendered when the locale has no decimal data.
    pub fn format_decimal(&mut self, grouping: FluentNumberGrouping, digits: &str) -> (r: Option<
        String,
    >)
        requires
            old(self).wf(),
        ensures
            final(self).wf(),
            final(self).locale_view() == old(self).locale_view(),
            r matches Some(s) ==> s@ == decimal_format_of(
                old(self).locale_view(),
                grouping.spec_code(),
                digits@,
            ),
            (r is Some) == decimal_formatter_exists(old(self).locale_view(), grouping.spec_code()),
    {
        let code = grouping.code();
        let n = self.decimal_formatters.len();
        let mut i: usize = 0;
        while i < n
            invariant
                *self == *old(self),
                self.wf(),
                i <= n,
                n == self.decimal_formatters@.len(),
                code == grouping.spec_code(),
            decreases n - i,
        {
            let hit = self.decimal_formatters[i].grouping == code;
            if hit {
                let out = format_decimal_with(&self.decimal_formatters[i], digits);
                return Some(out);
            }
            i = i + 1;
        }
        match new_decimal_formatter(self.locale.as_str(), grouping) {
            Some(h) => {
                let out = format_decimal_with(&h, digits);
                self.decimal_formatters.push(h);
                Some(out)
            },
            None => None,
        }
    }

    /// The plural category code of the operands string under the locale's
    /// cardinal or ordinal rules, constructing and caching the rules on first
    /// use; nothing is returned when the locale has no plural data.
    pub fn plural_category(&mut self, cardinal: bool, operands: &str) -> (r: Option<u8>)
        requires
            old(self).wf(),
        ensures
            final(self).wf(),
            final(self).locale_view() == old(self).locale_view(),
            r matches Some(c) ==> c == plural_category_of(
                old(self).locale_view(),
                cardinal,
                operands@,
            ) && c <= 5,
            (r is Some) == plural_rules_exist(old(self).locale_view(), cardinal),
    {
        if cardinal {
            if let Some(p) = &self.plural_cardinal {
                return Some(plural_category_with(p, operands));
            }
        } else {
            if let Some(p) = &self.plural_ordinal {
                return Some(plural_category_with(p, operands));
            }
        }
        match new_plural_rules(self.locale.as_str(), cardinal) {
            Some(p) => {
                let c = plural_category_with(&p, operands);
                if cardinal {
                    self.plural_cardinal = Some(p);
                } else {
                    self.plural_ordinal = Some(p);
                }
                Some(c)
            },
            None => None,
        }
    }

    /// Renders the date-time components through the locale formatter the plan
    /// selects, constructing and caching that formatter on first use; nothing
    /// is rendered when the locale lacks the plan's data.
    pub fn format_datetime(&mut self, plan: FormatterPlan, parts: DateTimeParts) -> (r: Option<
        String,
    >)
        requires
            old(self).wf(),
        ensures
            final(self).wf(),
            final(self).locale_view() == old(self).locale_view(),
            r matches Some(s) ==> s@ == plan.spec_format(old(self).locale_view(), parts),
            (r is Some) == plan.spec_exists(old(self).locale_view()),
    {
        let key = plan.key();
        let n = self.datetime_formatters.len();
        let mut i: usize = 0;
        while i < n
            invariant
                *self == *old(self),
                self.wf(),
                i <= n,
                n == self.datetime_formatters@.len(),
                key as int == plan.spec_key(),
                forall|j: int| 0 <= j < i ==> (#[trigger] self.datetime_formatters@[j]).0 != key,
            decreases n - i,
        {
            let hit = self.datetime_formatters[i].0 == key;
            if hit {
                proof {
                    lemma_plan_key_injective(self.datetime_formatters@[i as int].1, plan);
                }
                let out = format_any_with(&self.datetime_formatters[i].2, &parts);
                return Some(out);
            }
            i = i + 1;
        }
        match new_any_formatter(self.locale.as_str(), plan) {
            Some(h) => {
                let out = format_any_with(&h, &parts);
                self.datetime_formatters.push((key, plan, h));
                Some(out)
            },
            None => None,
        }
    }
}

/// Two plans with one key are the same plan.
proof fn lemma_plan_key_injective(a: FormatterPlan, b: FormatterPlan)
    requires
        a.spec_key() == b.spec_key(),
    ensures
        a == b,
{
}

/// Constructs the formatter a plan selects; verified dispatch over the five
/// trusted constructors.
fn new_any_formatter(locale: &str, plan: FormatterPlan) -> (r: Option<AnyDateTimeFormatter>)
    ensures
        r matches Some(h) ==> h.matches(locale@, plan),
        (r is Some) == plan.spec_exists(locale@),
{
    match plan {
        FormatterPlan::PDate(d) => match new_date_formatter(locale, d) {
            Some(h) => Some(AnyDateTimeFormatter::Date(h)),
            None => None,
        },
        FormatterPlan::PDateTime(d, t) => match new_datetime_formatter(locale, d, t) {
            Some(h) => Some(AnyDateTimeFormatter::DateTime(h)),
            None => None,
        },
        FormatterPlan::PTime(t) => match new_time_formatter(locale, t) {
            Some(h) => Some(AnyDateTimeFormatter::Time(h)),
            None => None,
        },
        FormatterPlan::PZoned(d, t, z) => match new_zoned_formatter(locale, d, t, z) {
            Some(h) => Some(AnyDateTimeFormatter::Zoned(h)),
            None => None,
        },
        FormatterPlan::PZone(z) => match new_zone_formatter(locale, z) {
            Some(h) => Some(AnyDateTimeFormatter::Zone(h)),
            None => None,
        },
    }
}

/// Renders through whichever formatter the handle holds; verified dispatch
/// over the five trusted renderers.
fn format_any_with(f: &AnyDateTimeFormatter, parts: &DateTimeParts) -> (r: String)
    ensures
        forall|locale: Seq<char>, plan: FormatterPlan|
            f.matches(locale, plan) ==> r@ == #[trigger] plan.spec_format(locale, *parts),
{
    match f {
        AnyDateTimeFormatter::Date(h) => format_date_with(h, parts),
        AnyDateTimeFormatter::DateTime(h) => format_datetime_with(h, parts),
        AnyDateTimeFormatter::Time(h) => format_time_with(h, parts),
        AnyDateTimeFormatter::Zoned(h) => format_zoned_with(h, parts),
        AnyDateTimeFormatter::Zone(h) => format_zone_with(h, parts),
    }
}

} // verus!
