//! The runtime value model: the closed set of variants a resolved expression
//! can carry, and their locale-aware stringification.

use vstd::prelude::*;
use vstd::string::StrSliceExecFns;
use vstd::string::StringExecFns;

use crate::datetime::FluentDateTime;
use crate::intl::decimal_format_of;
use crate::intl::decimal_formatter_exists;
use crate::intl::IntlLangMemoizer;
use crate::number::spec_shaped_scientific;
use crate::number::spec_shaped_standard;
use crate::number::FluentNumber;
use crate::number::FluentNumberNotation;
use crate::number::FluentNumberOptions;

verus! {

/// A runtime value: text, a number with options, a date-time with options, an
/// error marker, or nothing. Used transiently during resolution.
#[derive(Debug, Clone, PartialEq)]
pub enum FluentValue {
    String(String),
    Number(FluentNumber),
    DateTime(FluentDateTime),
    Error,
    Absent,
}

impl FluentNumberOptions {
    /// A copy equal to the original, field for field.
    pub fn duplicate(&self) -> (r: Self)
        ensures
            r == *self,
    {
        FluentNumberOptions {
            style: self.style,
            notation: self.notation,
            currency: match &self.currency {
                Some(c) => Some(c.clone()),
                None => None,
            },
            currency_display: self.currency_display,
            use_grouping: self.use_grouping,
            minimum_integer_digits: self.minimum_integer_digits,
            minimum_fraction_digits: self.minimum_fraction_digits,
            maximum_fraction_digits: self.maximum_fraction_digits,
            minimum_significant_digits: self.minimum_significant_digits,
            maximum_significant_digits: self.maximum_significant_digits,
            rounding_mode: self.rounding_mode,
        }
    }
}

impl FluentNumber {
    /// A copy equal to the original, field for field.
    pub fn duplicate(&self) -> (r: Self)
        ensures
            r == *self,
    {
        FluentNumber {
            negative: self.negative,
            mantissa: self.mantissa,
            scale: self.scale,
            options: self.options.duplicate(),
        }
    }

    /// The text this number renders to for a locale, or nothing when the
    /// locale has no decimal-formatter data: the shaped digits through the
    /// locale formatter, with mantissa and signed exponent joined by `E` for
    /// the scientific and engineering notations.
    pub open spec fn spec_as_string(self, locale: Seq<char>) -> Option<Seq<char>> {
        let g = self.options.use_grouping.spec_code();
        if !decimal_formatter_exists(locale, g) {
            None
        } else {
            match self.options.notation {
                FluentNumberNotation::Standard => Some(
                    decimal_format_of(locale, g, spec_shaped_standard(self)),
                ),
                FluentNumberNotation::Scientific => Some(
                    Self::spec_scientific_string(self, locale, 1),
                ),
                FluentNumberNotation::Engineering => Some(
                    Self::spec_scientific_string(self, locale, 3),
                ),
            }
        }
    }

    pub open spec fn spec_scientific_string(self, locale: Seq<char>, multiple: int) -> Seq<char> {
        let g = self.options.use_grouping.spec_code();
        let parts = spec_shaped_scientific(self, multiple);
        decimal_format_of(locale, g, parts.0) + seq!['E'] + (if parts.1 {
            seq!['-']
        } else {
            seq!['+']
        }) + decimal_format_of(locale, g, parts.2)
    }

    /// Renders the number under its options; `None` reports a
    /// formatter-construction failure, which the caller turns into a
    /// diagnostic.
    pub fn as_string_checked(&self, intls: &mut IntlLangMemoizer) -> (r: Option<String>)
        requires
            old(intls).wf(),
            self.wf(),
        ensures
            final(intls).wf(),
            final(intls).locale_view() == old(intls).locale_view(),
            match self.spec_as_string(old(intls).locale_view()) {
                Some(t) => r matches Some(s) && s@ == t,
                None => r is None,
            },
    {
        match self.options.notation {
            FluentNumberNotation::Standard => {
                let shaped = self.to_shaped_standard();
                intls.format_decimal(self.options.use_grouping, shaped.as_str())
            },
            FluentNumberNotation::Scientific => self.scientific_string(intls, 1),
            FluentNumberNotation::Engineering => self.scientific_string(intls, 3),
        }
    }

    fn scientific_string(&self, intls: &mut IntlLangMemoizer, multiple: u32) -> (r: Option<String>)
        requires
            old(intls).wf(),
            self.wf(),
            multiple == 1 || multiple == 3,
        ensures
            final(intls).wf(),
            final(intls).locale_view() == old(intls).locale_view(),
            if decimal_formatter_exists(
                old(intls).locale_view(),
                self.options.use_grouping.spec_code(),
            ) {
                r matches Some(s) && s@ == Self::spec_scientific_string(
                    *self,
                    old(intls).locale_view(),
                    multiple as int,
                )
            } else {
                r is None
            },
    {
        let (mant, exp_neg, exp) = self.to_shaped_scientific(multiple);
        let fmt_mant = match intls.format_decimal(self.options.use_grouping, mant.as_str()) {
            Some(s) => s,
            None => {
                return None;
            },
        };
        let fmt_exp = match intls.format_decimal(self.options.use_grouping, exp.as_str()) {
            Some(s) => s,
            None => {
                return None;
            },
        };
        let mut out = fmt_mant;
        out.append("E");
        if exp_neg {
            out.append("-");
        } else {
            out.append("+");
        }
        out.append(fmt_exp.as_str());
        proof {
            reveal_strlit("E");
            reveal_strlit("-");
            reveal_strlit("+");
            assert("E"@ =~= seq!['E']);
            assert("-"@ =~= seq!['-']);
            assert("+"@ =~= seq!['+']);
        }
        Some(out)
    }

    /// Renders the number under its options; failures render as empty text.
    pub fn as_string(&self, intls: &mut IntlLangMemoizer) -> (r: String)
        requires
            old(intls).wf(),
            self.wf(),
        ensures
            final(intls).wf(),
            final(intls).locale_view() == old(intls).locale_view(),
            r@ == match self.spec_as_string(old(intls).locale_view()) {
                Some(t) => t,
                None => Seq::<char>::empty(),
            },
    {
        match self.as_string_checked(intls) {
            Some(s) => s,
            None => String::new(),
        }
    }
}

impl FluentValue {
    /// Every number a value carries keeps its scale within the machine bound.
    pub open spec fn wf(self) -> bool {
        match self {
            FluentValue::Number(n) => n.wf(),
            _ => true,
        }
    }

    /// A copy equal to the original, field for field.
    pub fn duplicate(&self) -> (r: Self)
        ensures
            r == *self,
    {
        match self {
            FluentValue::String(s) => FluentValue::String(s.clone()),
            FluentValue::Number(n) => FluentValue::Number(n.duplicate()),
            FluentValue::DateTime(d) => FluentValue::DateTime(*d),
            FluentValue::Error => FluentValue::Error,
            FluentValue::Absent => FluentValue::Absent,
        }
    }

    /// Parses the string as a number value, falling back to a string value.
    pub fn try_number(s: &str) -> (r: FluentValue)
        ensures
            match crate::number::spec_parse_decimal(s@) {
                Some(p) => r matches FluentValue::Number(n) && n.negative == p.0 && n.mantissa
                    == p.1 && n.scale == p.2 && n.options == crate::number::literal_options(
                    p.3,
                    p.2,
                ),
                None => r matches FluentValue::String(t) && t@ == s@,
            },
            r.wf(),
    {
        match FluentNumber::try_from_str(s) {
            Some(n) => FluentValue::Number(n),
            None => FluentValue::String(String::from_str(s)),
        }
    }
}

} // verus!

verus! {

/// The number value a 16-bit integer converts to.
pub open spec fn spec_from_i16(n: i16) -> FluentValue {
    FluentValue::Number(
        FluentNumber {
            negative: n < 0,
            mantissa: (if n < 0 {
                -(n as int)
            } else {
                n as int
            }) as u64,
            scale: 0,
            options: FluentNumberOptions::spec_default(),
        },
    )
}

impl From<i16> for FluentValue {
    fn from(n: i16) -> (r: Self)
        ensures
            r == spec_from_i16(n),
    {
        let (neg, mag): (bool, u64) = if n < 0 {
            let w: i64 = n as i64;
            (true, (-w) as u64)
        } else {
            (false, n as u64)
        };
        FluentValue::Number(FluentNumber { negative: neg, mantissa: mag, scale: 0, options: Default::default() })
    }
}

impl vstd::std_specs::convert::FromSpecImpl<i16> for FluentValue {
    open spec fn obeys_from_spec() -> bool {
        true
    }

    open spec fn from_spec(n: i16) -> Self {
        spec_from_i16(n)
    }
}

impl<'a> From<&'a i16> for FluentValue {
    fn from(n: &'a i16) -> (r: Self)
        ensures
            r == spec_from_i16(*n),
    {
        FluentValue::from(*n)
    }
}

impl<'a> vstd::std_specs::convert::FromSpecImpl<&'a i16> for FluentValue {
    open spec fn obeys_from_spec() -> bool {
        true
    }

    open spec fn from_spec(n: &'a i16) -> Self {
        spec_from_i16(*n)
    }
}

impl FluentValue {
    /// A text value holding this string.
    pub fn text(s: &str) -> (r: FluentValue)
        ensures
            r matches FluentValue::String(t) && t@ == s@,
    {
        FluentValue::String(String::from_str(s))
    }
}

} // verus!
