//! The date-time value model: plain Gregorian components plus style options,
//! and the selection of exactly one of the five formatter families from which
//! styles are visible.

use vstd::prelude::*;

use crate::intl::DateTimeParts;
use crate::intl::FormatterPlan;
use crate::intl::IntlLangMemoizer;
use crate::strutil::str_eq;

verus! {

// https://developer.mozilla.org/en-US/docs/Web/JavaScript/Reference/Global_Objects/Intl/DateTimeFormat/DateTimeFormat#datestyle
#[derive(Debug, Copy, Clone, Hash, PartialEq, Eq, Structural)]
pub enum FluentDateStyle {
    Full,
    Long,
    Medium,
    Short,
    /// Hides the date.
    Hidden,
}

impl Default for FluentDateStyle {
    fn default() -> (r: Self)
        ensures
            r == FluentDateStyle::Medium,
    {
        Self::Medium
    }
}

impl FluentDateStyle {
    pub open spec fn spec_from_name(s: Seq<char>) -> FluentDateStyle {
        if s == "full"@ {
            FluentDateStyle::Full
        } else if s == "long"@ {
            FluentDateStyle::Long
        } else if s == "medium"@ {
            FluentDateStyle::Medium
        } else if s == "short"@ {
            FluentDateStyle::Short
        } else if s == "hidden"@ {
            FluentDateStyle::Hidden
        } else {
            FluentDateStyle::Medium
        }
    }

    pub fn from_name(s: &str) -> (r: Self)
        ensures
            r == Self::spec_from_name(s@),
    {
        if str_eq(s, "full") {
            Self::Full
        } else if str_eq(s, "long") {
            Self::Long
        } else if str_eq(s, "medium") {
            Self::Medium
        } else if str_eq(s, "short") {
            Self::Short
        } else if str_eq(s, "hidden") {
            Self::Hidden
        } else {
            Self::Medium
        }
    }

    /// The length code handed to the locale formatter, or nothing when the
    /// date is hidden.
    pub open spec fn spec_code(self) -> Option<u8> {
        match self {
            FluentDateStyle::Full => Some(0u8),
            FluentDateStyle::Long => Some(1u8),
            FluentDateStyle::Medium => Some(2u8),
            FluentDateStyle::Short => Some(3u8),
            FluentDateStyle::Hidden => None,
        }
    }

    pub fn code(&self) -> (r: Option<u8>)
        ensures
            r == self.spec_code(),
    {
        match self {
            FluentDateStyle::Full => Some(0),
            FluentDateStyle::Long => Some(1),
            FluentDateStyle::Medium => Some(2),
            FluentDateStyle::Short => Some(3),
            FluentDateStyle::Hidden => None,
        }
    }
}

// https://developer.mozilla.org/en-US/docs/Web/JavaScript/Reference/Global_Objects/Intl/DateTimeFormat/DateTimeFormat#timestyle
#[derive(Debug, Copy, Clone, Hash, PartialEq, Eq, Structural)]
pub enum FluentTimeStyle {
    Full,
    Long,
    Medium,
    Short,
    /// Hides the time.
    Hidden,
}

impl Default for FluentTimeStyle {
    fn default() -> (r: Self)
        ensures
            r == FluentTimeStyle::Medium,
    {
        Self::Medium
    }
}

impl FluentTimeStyle {
    pub open spec fn spec_from_name(s: Seq<char>) -> FluentTimeStyle {
        if s == "full"@ {
            FluentTimeStyle::Full
        } else if s == "long"@ {
            FluentTimeStyle::Long
        } else if s == "medium"@ {
            FluentTimeStyle::Medium
        } else if s == "short"@ {
            FluentTimeStyle::Short
        } else if s == "hidden"@ {
            FluentTimeStyle::Hidden
        } else {
            FluentTimeStyle::Medium
        }
    }

    pub fn from_name(s: &str) -> (r: Self)
        ensures
            r == Self::spec_from_name(s@),
    {
        if str_eq(s, "full") {
            Self::Full
        } else if str_eq(s, "long") {
            Self::Long
        } else if str_eq(s, "medium") {
            Self::Medium
        } else if str_eq(s, "short") {
            Self::Short
        } else if str_eq(s, "hidden") {
            Self::Hidden
        } else {
            Self::Medium
        }
    }

    /// The length code handed to the locale formatter, after the documented
    /// downgrade: no native long or full time formatter is used, so those
    /// styles collapse to medium. Nothing when the time is hidden.
    pub open spec fn spec_code_downgraded(self) -> Option<u8> {
        match self {
            FluentTimeStyle::Full => Some(2u8),
            FluentTimeStyle::Long => Some(2u8),
            FluentTimeStyle::Medium => Some(2u8),
            FluentTimeStyle::Short => Some(3u8),
            FluentTimeStyle::Hidden => None,
        }
    }

    pub fn code_downgraded(&self) -> (r: Option<u8>)
        ensures
            r == self.spec_code_downgraded(),
    {
        match self {
            FluentTimeStyle::Full => Some(2),
            FluentTimeStyle::Long => Some(2),
            FluentTimeStyle::Medium => Some(2),
            FluentTimeStyle::Short => Some(3),
            FluentTimeStyle::Hidden => None,
        }
    }

}

#[derive(Debug, Copy, Clone, Hash, PartialEq, Eq, Structural)]
pub enum IsoFormat {
    Basic,
    Extended,
    UtcBasic,
    UtcExtended,
}

#[derive(Debug, Copy, Clone, Hash, PartialEq, Eq, Structural)]
pub enum IsoMinutes {
    Required,
    Optional,
}

#[derive(Debug, Copy, Clone, Hash, PartialEq, Eq, Structural)]
pub enum IsoSeconds {
    Optional,
    Never,
}

#[derive(Debug, Copy, Clone, Hash, PartialEq, Eq, Structural)]
pub enum FluentTimezoneStyle {
    LocalizedGmt,
    Iso8601(IsoFormat, IsoMinutes, IsoSeconds),
    Hidden,
}

impl Default for FluentTimezoneStyle {
    fn default() -> (r: Self)
        ensures
            r == FluentTimezoneStyle::Hidden,
    {
        Self::Hidden
    }
}

impl FluentTimezoneStyle {
    pub open spec fn spec_from_name(s: Seq<char>) -> FluentTimezoneStyle {
        if s == "gmt"@ {
            FluentTimezoneStyle::LocalizedGmt
        } else if s == "basic"@ {
            FluentTimezoneStyle::Iso8601(IsoFormat::Basic, IsoMinutes::Required, IsoSeconds::Optional)
        } else if s == "extended"@ {
            FluentTimezoneStyle::Iso8601(
                IsoFormat::Extended,
                IsoMinutes::Required,
                IsoSeconds::Optional,
            )
        } else if s == "utcBasic"@ {
            FluentTimezoneStyle::Iso8601(
                IsoFormat::UtcBasic,
                IsoMinutes::Required,
                IsoSeconds::Optional,
            )
        } else if s == "utcExtended"@ {
            FluentTimezoneStyle::Iso8601(
                IsoFormat::UtcExtended,
                IsoMinutes::Required,
                IsoSeconds::Optional,
            )
        } else {
            FluentTimezoneStyle::Hidden
        }
    }

    pub fn from_name(s: &str) -> (r: Self)
        ensures
            r == Self::spec_from_name(s@),
    {
        if str_eq(s, "gmt") {
            Self::LocalizedGmt
        } else if str_eq(s, "basic") {
            Self::Iso8601(IsoFormat::Basic, IsoMinutes::Required, IsoSeconds::Optional)
        } else if str_eq(s, "extended") {
            Self::Iso8601(IsoFormat::Extended, IsoMinutes::Required, IsoSeconds::Optional)
        } else if str_eq(s, "utcBasic") {
            Self::Iso8601(IsoFormat::UtcBasic, IsoMinutes::Required, IsoSeconds::Optional)
        } else if str_eq(s, "utcExtended") {
            Self::Iso8601(IsoFormat::UtcExtended, IsoMinutes::Required, IsoSeconds::Optional)
        } else {
            Self::Hidden
        }
    }

    /// The zone-style code handed to the locale formatter (0 localized GMT,
    /// `1 + f + 4*m + 8*s` for the ISO-8601 forms), or nothing when the zone
    /// is hidden.
    pub open spec fn spec_code(self) -> Option<u8> {
        match self {
            FluentTimezoneStyle::LocalizedGmt => Some(0u8),
            FluentTimezoneStyle::Iso8601(f, m, s) => {
                let fc: u8 = match f {
                    IsoFormat::Basic => 0u8,
                    IsoFormat::Extended => 1u8,
                    IsoFormat::UtcBasic => 2u8,
                    IsoFormat::UtcExtended => 3u8,
                };
                let mc: u8 = match m {
                    IsoMinutes::Required => 0u8,
                    IsoMinutes::Optional => 1u8,
                };
                let sc: u8 = match s {
                    IsoSeconds::Optional => 0u8,
                    IsoSeconds::Never => 1u8,
                };
                Some((1 + fc + 4 * mc + 8 * sc) as u8)
            },
            FluentTimezoneStyle::Hidden => None,
        }
    }

    pub fn code(&self) -> (r: Option<u8>)
        ensures
            r == self.spec_code(),
    {
        match *self {
            FluentTimezoneStyle::LocalizedGmt => Some(0),
            FluentTimezoneStyle::Iso8601(f, m, s) => {
                let fc: u8 = match f {
                    IsoFormat::Basic => 0,
                    IsoFormat::Extended => 1,
                    IsoFormat::UtcBasic => 2,
                    IsoFormat::UtcExtended => 3,
                };
                let mc: u8 = match m {
                    IsoMinutes::Required => 0,
                    IsoMinutes::Optional => 1,
                };
                let sc: u8 = match s {
                    IsoSeconds::Optional => 0,
                    IsoSeconds::Never => 1,
                };
                Some(1 + fc + 4 * mc + 8 * sc)
            },
            FluentTimezoneStyle::Hidden => None,
        }
    }
}

/// The verified unpacking of a zone-style code inverts the packing: for any
/// visible zone style, the components read back from its code are exactly the
/// style's localized-GMT flag and ISO format, minutes and seconds choices.
pub proof fn lemma_tz_code_components(ts: FluentTimezoneStyle)
    requires
        ts.spec_code() is Some,
    ensures
        ({
            let c = crate::intl::spec_tz_components(ts.spec_code().unwrap());
            match ts {
                FluentTimezoneStyle::LocalizedGmt => c.0 == true,
                FluentTimezoneStyle::Iso8601(f, m, s) => {
                    &&& c.0 == false
                    &&& c.1 == (match f {
                        IsoFormat::Basic => 0u8,
                        IsoFormat::Extended => 1u8,
                        IsoFormat::UtcBasic => 2u8,
                        IsoFormat::UtcExtended => 3u8,
                    })
                    &&& c.2 == (match m {
                        IsoMinutes::Required => 0u8,
                        IsoMinutes::Optional => 1u8,
                    })
                    &&& c.3 == (match s {
                        IsoSeconds::Optional => 0u8,
                        IsoSeconds::Never => 1u8,
                    })
                },
                FluentTimezoneStyle::Hidden => true,
            }
        }),
{
}

/// Style options carried by a date-time value.
#[derive(Debug, Copy, Clone, Hash, PartialEq, Eq, Structural)]
pub struct FluentDateTimeOptions {
    pub date_style: FluentDateStyle,
    pub time_style: FluentTimeStyle,
    pub timezone_style: FluentTimezoneStyle,
}

impl FluentDateTimeOptions {
    pub open spec fn spec_default() -> FluentDateTimeOptions {
        FluentDateTimeOptions {
            date_style: FluentDateStyle::Medium,
            time_style: FluentTimeStyle::Medium,
            timezone_style: FluentTimezoneStyle::Hidden,
        }
    }

    /// Which formatter family the visible styles select: date-only,
    /// date+time, date+time+zone, time-only, or zone-only; wherever a time
    /// style is visible it is the downgraded code, since no native long or
    /// full time formatter is used. All-hidden styles select nothing to
    /// render; a zone with only one of date and time has no formatter and
    /// reports a construction failure.
    pub open spec fn spec_plan(self) -> PlanChoice {
        match (self.date_style.spec_code(), self.time_style.spec_code_downgraded(), self.timezone_style.spec_code()) {
            (Option::<u8>::None, Option::<u8>::None, Option::<u8>::None) => PlanChoice::Empty,
            (Some(d), Option::<u8>::None, Option::<u8>::None) => PlanChoice::Use(
                FormatterPlan::PDate(d),
            ),
            (Some(d), Some(t), Option::<u8>::None) => PlanChoice::Use(
                FormatterPlan::PDateTime(d, t),
            ),
            (Some(d), Some(t), Some(z)) => PlanChoice::Use(FormatterPlan::PZoned(d, t, z)),
            (Option::<u8>::None, Some(t), Option::<u8>::None) => PlanChoice::Use(
                FormatterPlan::PTime(t),
            ),
            (Option::<u8>::None, Option::<u8>::None, Some(z)) => PlanChoice::Use(
                FormatterPlan::PZone(z),
            ),
            _ => PlanChoice::Unsupported,
        }
    }

    pub fn plan(&self) -> (r: PlanChoice)
        ensures
            r == self.spec_plan(),
    {
        match (self.date_style.code(), self.time_style.code_downgraded(), self.timezone_style.code()) {
            (None, None, None) => PlanChoice::Empty,
            (Some(d), None, None) => PlanChoice::Use(FormatterPlan::PDate(d)),
            (Some(d), Some(t), None) => PlanChoice::Use(FormatterPlan::PDateTime(d, t)),
            (Some(d), Some(t), Some(z)) => PlanChoice::Use(FormatterPlan::PZoned(d, t, z)),
            (None, Some(t), None) => PlanChoice::Use(FormatterPlan::PTime(t)),
            (None, None, Some(z)) => PlanChoice::Use(FormatterPlan::PZone(z)),
            _ => PlanChoice::Unsupported,
        }
    }
}

impl Default for FluentDateTimeOptions {
    fn default() -> (r: Self)
        ensures
            r == FluentDateTimeOptions::spec_default(),
    {
        FluentDateTimeOptions {
            date_style: FluentDateStyle::Medium,
            time_style: FluentTimeStyle::Medium,
            timezone_style: FluentTimezoneStyle::Hidden,
        }
    }
}

/// What a set of date-time styles asks the locale data for: nothing at all,
/// one of the five formatter families, or a combination no formatter serves.
#[derive(Debug, Copy, Clone, PartialEq, Eq, Structural)]
pub enum PlanChoice {
    Empty,
    Unsupported,
    Use(FormatterPlan),
}

/// A timezone-aware instant (plain Gregorian components with a GMT offset)
/// plus its style options.
#[derive(Debug, Copy, Clone, PartialEq)]
pub struct FluentDateTime {
    pub value: DateTimeParts,
    pub options: FluentDateTimeOptions,
}

impl FluentDateTime {
    pub fn new(value: DateTimeParts, options: FluentDateTimeOptions) -> (r: Self)
        ensures
            r == (FluentDateTime { value, options }),
    {
        FluentDateTime { value, options }
    }

    /// The text this value renders to for a locale, or nothing when the
    /// styles need a formatter the locale data cannot build.
    pub open spec fn spec_as_string(self, locale: Seq<char>) -> Option<Seq<char>> {
        match self.options.spec_plan() {
            PlanChoice::Empty => Some(Seq::<char>::empty()),
            PlanChoice::Unsupported => None,
            PlanChoice::Use(p) => if p.spec_exists(locale) {
                Some(p.spec_format(locale, self.value))
            } else {
                None
            },
        }
    }

    /// Renders the instant under its style options; `None` reports a
    /// formatter-construction failure (unsupported style combination or
    /// missing locale data), which the caller turns into a diagnostic.
    pub fn as_string_checked(&self, intls: &mut IntlLangMemoizer) -> (r: Option<String>)
        requires
            old(intls).wf(),
        ensures
            final(intls).wf(),
            final(intls).locale_view() == old(intls).locale_view(),
            match self.spec_as_string(old(intls).locale_view()) {
                Some(t) => r matches Some(s) && s@ == t,
                None => r is None,
            },
    {
        match self.options.plan() {
            PlanChoice::Empty => Some(String::new()),
            PlanChoice::Unsupported => None,
            PlanChoice::Use(p) => intls.format_datetime(p, self.value),
        }
    }

    /// Renders the instant under its style options; failures render as empty
    /// text.
    pub fn as_string(&self, intls: &mut IntlLangMemoizer) -> (r: String)
        requires
            old(intls).wf(),
        ensures
            final(intls).wf(),
            final(intls).locale_view() == old(intls).locale_view(),
            r@ == match self.spec_as_string(old(intls).locale_view()) {
                Some(t) => t,
                None => Seq::<char>::empty(),
            },
    {
        match self.as_string_checked(intls) {
            Some(s) => s,
            None => String::new(),
        }
    }
}

} // verus!

verus! {

/// One named option applied to a set of date-time options; unrecognized keys
/// or value kinds are ignored by design.
pub open spec fn spec_apply_datetime_option(
    o: FluentDateTimeOptions,
    key: Seq<char>,
    v: crate::value::FluentValue,
) -> FluentDateTimeOptions {
    match v {
        crate::value::FluentValue::String(n) => {
            if key == "dateStyle"@ {
                FluentDateTimeOptions { date_style: FluentDateStyle::spec_from_name(n@), ..o }
            } else if key == "timeStyle"@ {
                FluentDateTimeOptions { time_style: FluentTimeStyle::spec_from_name(n@), ..o }
            } else if key == "timezoneStyle"@ {
                FluentDateTimeOptions {
                    timezone_style: FluentTimezoneStyle::spec_from_name(n@),
                    ..o
                }
            } else {
                o
            }
        },
        _ => o,
    }
}

/// The named options applied in order, first to last.
pub open spec fn spec_merge_datetime_options(
    o: FluentDateTimeOptions,
    pairs: Seq<(String, crate::value::FluentValue)>,
) -> FluentDateTimeOptions
    decreases pairs.len(),
{
    if pairs.len() == 0 {
        o
    } else {
        spec_merge_datetime_options(
            spec_apply_datetime_option(o, pairs[0].0@, pairs[0].1),
            pairs.skip(1),
        )
    }
}

impl FluentDateTimeOptions {
    /// Overrides these options with the recognized entries of a named-options
    /// map, in insertion order; unrecognized keys are ignored by design.
    pub fn merge(&mut self, opts: &crate::args::FluentArgs)
        ensures
            *final(self) == spec_merge_datetime_options(*old(self), opts@),
    {
        let n = opts.len();
        let mut i: usize = 0;
        proof {
            assert(opts@.skip(0) =~= opts@);
        }
        while i < n
            invariant
                i <= n,
                n == opts@.len(),
                spec_merge_datetime_options(*old(self), opts@) == spec_merge_datetime_options(
                    *self,
                    opts@.skip(i as int),
                ),
            decreases n - i,
        {
            proof {
                assert(opts@.skip(i as int)[0] == opts@[i as int]);
                assert(opts@.skip(i as int).skip(1) =~= opts@.skip(i as int + 1));
            }
            let key = opts.key_at(i);
            let value = opts.value_at(i);
            match value {
                crate::value::FluentValue::String(s) => {
                    if str_eq(key, "dateStyle") {
                        self.date_style = FluentDateStyle::from_name(s.as_str());
                    } else if str_eq(key, "timeStyle") {
                        self.time_style = FluentTimeStyle::from_name(s.as_str());
                    } else if str_eq(key, "timezoneStyle") {
                        self.timezone_style = FluentTimezoneStyle::from_name(s.as_str());
                    }
                },
                _ => {},
            }
            i = i + 1;
        }
        proof {
            assert(opts@.skip(n as int) =~= Seq::<(String, crate::value::FluentValue)>::empty());
        }
    }
}

} // verus!
