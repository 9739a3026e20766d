//! The numeric value model: a sign-magnitude decimal (mantissa and fraction
//! scale) plus formatting options, and the pure digit-shaping pipeline that
//! applies digit bounds and the rounding mode before a locale-aware formatter
//! renders the digits.

use vstd::prelude::*;
use vstd::string::StrSliceExecFns;
use vstd::string::StringExecFns;

use crate::strutil::digit_str;
use crate::value::FluentValue;
use crate::strutil::digits_of;
use crate::strutil::lemma_digits_of_len;
use crate::strutil::lemma_pow10_20;
use crate::strutil::lemma_pow10_mono;
use crate::strutil::pow10;
use crate::strutil::pow10_u64;
use crate::strutil::push_digits;
use crate::strutil::push_zeros;
use crate::strutil::str_eq;
use crate::strutil::zeros;

verus! {

/// The largest fraction-digit scale a `FluentNumber` may carry. Bounding the
/// scale keeps every digit-position computation inside machine integers.
pub const MAX_SCALE: u32 = 100000;

#[derive(Debug, Copy, Clone, Hash, PartialEq, Eq, Structural)]
pub enum FluentNumberStyle {
    Decimal,
    Currency,
    Percent,
}

impl Default for FluentNumberStyle {
    fn default() -> (r: Self)
        ensures
            r == FluentNumberStyle::Decimal,
    {
        Self::Decimal
    }
}

impl FluentNumberStyle {
    /// The style a named option string selects; unrecognized names select the
    /// default style.
    pub open spec fn spec_from_name(s: Seq<char>) -> FluentNumberStyle {
        if s == "decimal"@ {
            FluentNumberStyle::Decimal
        } else if s == "currency"@ {
            FluentNumberStyle::Currency
        } else if s == "percent"@ {
            FluentNumberStyle::Percent
        } else {
            FluentNumberStyle::Decimal
        }
    }

    pub fn from_name(s: &str) -> (r: Self)
        ensures
            r == Self::spec_from_name(s@),
    {
        if str_eq(s, "decimal") {
            Self::Decimal
        } else if str_eq(s, "currency") {
            Self::Currency
        } else if str_eq(s, "percent") {
            Self::Percent
        } else {
            Self::Decimal
        }
    }
}

#[derive(Debug, Copy, Clone, Hash, PartialEq, Eq, Structural)]
pub enum FluentNumberNotation {
    Standard,
    Scientific,
    Engineering,
}

impl Default for FluentNumberNotation {
    fn default() -> (r: Self)
        ensures
            r == FluentNumberNotation::Standard,
    {
        Self::Standard
    }
}

impl FluentNumberNotation {
    pub open spec fn spec_from_name(s: Seq<char>) -> FluentNumberNotation {
        if s == "standard"@ {
            FluentNumberNotation::Standard
        } else if s == "scientific"@ {
            FluentNumberNotation::Scientific
        } else if s == "engineering"@ {
            FluentNumberNotation::Engineering
        } else {
            FluentNumberNotation::Standard
        }
    }

    pub fn from_name(s: &str) -> (r: Self)
        ensures
            r == Self::spec_from_name(s@),
    {
        if str_eq(s, "standard") {
            Self::Standard
        } else if str_eq(s, "scientific") {
            Self::Scientific
        } else if str_eq(s, "engineering") {
            Self::Engineering
        } else {
            Self::Standard
        }
    }
}

#[derive(Debug, Copy, Clone, Hash, PartialEq, Eq, Structural)]
pub enum FluentNumberGrouping {
    Always,
    Auto,
    Min2,
    Never,
}

impl Default for FluentNumberGrouping {
    fn default() -> (r: Self)
        ensures
            r == FluentNumberGrouping::Auto,
    {
        Self::Auto
    }
}

impl FluentNumberGrouping {
    pub open spec fn spec_from_name(s: Seq<char>) -> FluentNumberGrouping {
        if s == "always"@ {
            FluentNumberGrouping::Always
        } else if s == "auto"@ {
            FluentNumberGrouping::Auto
        } else if s == "min2"@ {
            FluentNumberGrouping::Min2
        } else if s == "never"@ {
            FluentNumberGrouping::Never
        } else {
            FluentNumberGrouping::Auto
        }
    }

    pub fn from_name(s: &str) -> (r: Self)
        ensures
            r == Self::spec_from_name(s@),
    {
        if str_eq(s, "always") {
            Self::Always
        } else if str_eq(s, "auto") {
            Self::Auto
        } else if str_eq(s, "min2") {
            Self::Min2
        } else if str_eq(s, "never") {
            Self::Never
        } else {
            Self::Auto
        }
    }

    /// A small integer code for the grouping strategy, used as a formatter
    /// cache key and in the locale formatter's contract.
    pub open spec fn spec_code(self) -> u8 {
        match self {
            FluentNumberGrouping::Always => 0,
            FluentNumberGrouping::Auto => 1,
            FluentNumberGrouping::Min2 => 2,
            FluentNumberGrouping::Never => 3,
        }
    }

    pub fn code(&self) -> (r: u8)
        ensures
            r == self.spec_code(),
    {
        match self {
            FluentNumberGrouping::Always => 0,
            FluentNumberGrouping::Auto => 1,
            FluentNumberGrouping::Min2 => 2,
            FluentNumberGrouping::Never => 3,
        }
    }
}

/// The nine CLDR rounding modes; the default is half-expand (round half away
/// from zero).
#[derive(Debug, Copy, Clone, Hash, PartialEq, Eq, Structural)]
pub enum FluentNumberRoundingMode {
    Ceil,
    Floor,
    Expand,
    Trunc,
    HalfCeil,
    HalfFloor,
    HalfExpand,
    HalfTrunc,
    HalfEven,
}

impl Default for FluentNumberRoundingMode {
    fn default() -> (r: Self)
        ensures
            r == FluentNumberRoundingMode::HalfExpand,
    {
        Self::HalfExpand
    }
}

impl FluentNumberRoundingMode {
    pub open spec fn spec_from_name(s: Seq<char>) -> FluentNumberRoundingMode {
        if s == "ceil"@ {
            FluentNumberRoundingMode::Ceil
        } else if s == "floor"@ {
            FluentNumberRoundingMode::Floor
        } else if s == "expand"@ {
            FluentNumberRoundingMode::Expand
        } else if s == "trunc"@ {
            FluentNumberRoundingMode::Trunc
        } else if s == "halfCeil"@ {
            FluentNumberRoundingMode::HalfCeil
        } else if s == "halfFloor"@ {
            FluentNumberRoundingMode::HalfFloor
        } else if s == "halfExpand"@ {
            FluentNumberRoundingMode::HalfExpand
        } else if s == "halfTrunc"@ {
            FluentNumberRoundingMode::HalfTrunc
        } else if s == "halfEven"@ {
            FluentNumberRoundingMode::HalfEven
        } else {
            FluentNumberRoundingMode::HalfExpand
        }
    }

    pub fn from_name(s: &str) -> (r: Self)
        ensures
            r == Self::spec_from_name(s@),
    {
        if str_eq(s, "ceil") {
            Self::Ceil
        } else if str_eq(s, "floor") {
            Self::Floor
        } else if str_eq(s, "expand") {
            Self::Expand
        } else if str_eq(s, "trunc") {
            Self::Trunc
        } else if str_eq(s, "halfCeil") {
            Self::HalfCeil
        } else if str_eq(s, "halfFloor") {
            Self::HalfFloor
        } else if str_eq(s, "halfExpand") {
            Self::HalfExpand
        } else if str_eq(s, "halfTrunc") {
            Self::HalfTrunc
        } else if str_eq(s, "halfEven") {
            Self::HalfEven
        } else {
            Self::HalfExpand
        }
    }
}

#[derive(Debug, Copy, Clone, Hash, PartialEq, Eq, Structural)]
pub enum FluentNumberCurrencyDisplayStyle {
    Symbol,
    Code,
    Name,
}

impl Default for FluentNumberCurrencyDisplayStyle {
    fn default() -> (r: Self)
        ensures
            r == FluentNumberCurrencyDisplayStyle::Symbol,
    {
        Self::Symbol
    }
}

impl FluentNumberCurrencyDisplayStyle {
    pub open spec fn spec_from_name(s: Seq<char>) -> FluentNumberCurrencyDisplayStyle {
        if s == "symbol"@ {
            FluentNumberCurrencyDisplayStyle::Symbol
        } else if s == "code"@ {
            FluentNumberCurrencyDisplayStyle::Code
        } else if s == "name"@ {
            FluentNumberCurrencyDisplayStyle::Name
        } else {
            FluentNumberCurrencyDisplayStyle::Symbol
        }
    }

    pub fn from_name(s: &str) -> (r: Self)
        ensures
            r == Self::spec_from_name(s@),
    {
        if str_eq(s, "symbol") {
            Self::Symbol
        } else if str_eq(s, "code") {
            Self::Code
        } else if str_eq(s, "name") {
            Self::Name
        } else {
            Self::Symbol
        }
    }
}

/// Formatting options carried by a number value. Digit bounds are optional;
/// unset bounds take the documented defaults at shaping time.
#[derive(Debug, Clone, Hash, PartialEq, Eq)]
pub struct FluentNumberOptions {
    pub style: FluentNumberStyle,
    pub notation: FluentNumberNotation,
    pub currency: Option<String>,
    pub currency_display: FluentNumberCurrencyDisplayStyle,
    pub use_grouping: FluentNumberGrouping,
    /// The minimum number of integer digits; shorter integer parts are
    /// left-padded with zeros.
    pub minimum_integer_digits: Option<usize>,
    /// The minimum number of fraction digits.
    pub minimum_fraction_digits: Option<usize>,
    /// The maximum number of fraction digits; the rounding mode applies at
    /// this boundary.
    pub maximum_fraction_digits: Option<usize>,
    /// The minimum number of significant digits.
    pub minimum_significant_digits: Option<usize>,
    /// The maximum number of significant digits.
    pub maximum_significant_digits: Option<usize>,
    pub rounding_mode: FluentNumberRoundingMode,
}

impl FluentNumberOptions {
    pub open spec fn spec_default() -> FluentNumberOptions {
        FluentNumberOptions {
            style: FluentNumberStyle::Decimal,
            notation: FluentNumberNotation::Standard,
            currency: None,
            currency_display: FluentNumberCurrencyDisplayStyle::Symbol,
            use_grouping: FluentNumberGrouping::Auto,
            minimum_integer_digits: None,
            minimum_fraction_digits: None,
            maximum_fraction_digits: None,
            minimum_significant_digits: None,
            maximum_significant_digits: None,
            rounding_mode: FluentNumberRoundingMode::HalfExpand,
        }
    }
}

impl Default for FluentNumberOptions {
    fn default() -> (r: Self)
        ensures
            r == FluentNumberOptions::spec_default(),
    {
        FluentNumberOptions {
            style: FluentNumberStyle::Decimal,
            notation: FluentNumberNotation::Standard,
            currency: None,
            currency_display: FluentNumberCurrencyDisplayStyle::Symbol,
            use_grouping: FluentNumberGrouping::Auto,
            minimum_integer_digits: None,
            minimum_fraction_digits: None,
            maximum_fraction_digits: None,
            minimum_significant_digits: None,
            maximum_significant_digits: None,
            rounding_mode: FluentNumberRoundingMode::HalfExpand,
        }
    }
}

/// A numeric runtime value: the signed decimal `(-1)^negative * mantissa /
/// 10^scale`, together with its formatting options. The scale preserves the
/// fraction digits a literal was written with, so `1.0` and `1` stay
/// distinguishable for plural-category selection.
#[derive(Debug, Clone, PartialEq)]
pub struct FluentNumber {
    pub negative: bool,
    pub mantissa: u64,
    pub scale: u32,
    pub options: FluentNumberOptions,
}

impl FluentNumber {
    /// The scale stays within the machine bound.
    pub open spec fn wf(&self) -> bool {
        self.scale <= MAX_SCALE
    }

    pub fn new(negative: bool, mantissa: u64, scale: u32, options: FluentNumberOptions) -> (r:
        Self)
        requires
            scale <= MAX_SCALE,
        ensures
            r == (FluentNumber { negative, mantissa, scale, options }),
            r.wf(),
    {
        Self { negative, mantissa, scale, options }
    }
}

/// Whether rounding the magnitude quotient `q` with remainder `r` out of
/// divisor `d` moves away from zero, for a value of the given sign.
pub open spec fn round_away(
    mode: FluentNumberRoundingMode,
    negative: bool,
    q: nat,
    r: nat,
    d: nat,
) -> bool {
    match mode {
        FluentNumberRoundingMode::Expand => r > 0,
        FluentNumberRoundingMode::Trunc => false,
        FluentNumberRoundingMode::Ceil => !negative && r > 0,
        FluentNumberRoundingMode::Floor => negative && r > 0,
        FluentNumberRoundingMode::HalfExpand => 2 * r >= d,
        FluentNumberRoundingMode::HalfTrunc => 2 * r > d,
        FluentNumberRoundingMode::HalfCeil => if !negative {
            2 * r >= d
        } else {
            2 * r > d
        },
        FluentNumberRoundingMode::HalfFloor => if negative {
            2 * r >= d
        } else {
            2 * r > d
        },
        FluentNumberRoundingMode::HalfEven => 2 * r > d || (2 * r == d && q % 2 == 1),
    }
}

/// Rounds the decimal `(mantissa, scale)` so that at most `target` fraction
/// digits remain, using the given mode; a scale already within the bound is
/// left unchanged.
pub open spec fn spec_round_at(
    mode: FluentNumberRoundingMode,
    negative: bool,
    mantissa: nat,
    scale: nat,
    target: nat,
) -> (nat, nat) {
    if scale <= target {
        (mantissa, scale)
    } else {
        let d = pow10((scale - target) as nat);
        let q = mantissa / d;
        let r = mantissa % d;
        if round_away(mode, negative, q, r, d) {
            ((q + 1) as nat, target)
        } else {
            (q, target)
        }
    }
}

/// Drops trailing zero fraction digits, reducing the scale accordingly.
pub open spec fn spec_trim(mantissa: nat, scale: nat) -> (nat, nat)
    decreases scale,
{
    if scale > 0 && mantissa % 10 == 0 {
        spec_trim(mantissa / 10, (scale - 1) as nat)
    } else {
        (mantissa, scale)
    }
}

/// Renders the decimal `(negative, mantissa, scale)` as plain digits with a
/// sign, left-padding the integer part to `min_int` digits and right-padding
/// the fraction part to `min_frac` digits; an empty fraction omits the point.
pub open spec fn spec_render(
    negative: bool,
    mantissa: nat,
    scale: nat,
    min_int: nat,
    min_frac: nat,
) -> Seq<char> {
    let ds = digits_of(mantissa);
    let dsp = if ds.len() < scale + 1 {
        zeros((scale + 1 - ds.len()) as nat) + ds
    } else {
        ds
    };
    let ip = dsp.take(dsp.len() - scale);
    let fp = dsp.skip(dsp.len() - scale);
    let ip2 = if ip.len() < min_int {
        zeros((min_int - ip.len()) as nat) + ip
    } else {
        ip
    };
    let fp2 = if fp.len() < min_frac {
        fp + zeros((min_frac - fp.len()) as nat)
    } else {
        fp
    };
    (if negative {
        seq!['-']
    } else {
        Seq::<char>::empty()
    }) + ip2 + (if fp2.len() > 0 {
        seq!['.'] + fp2
    } else {
        Seq::<char>::empty()
    })
}

/// Executable counterpart of [`spec_round_at`].
pub fn round_at(
    mode: FluentNumberRoundingMode,
    negative: bool,
    mantissa: u64,
    scale: u32,
    target: u32,
) -> (r: (u64, u32))
    ensures
        (r.0 as nat, r.1 as nat) == spec_round_at(
            mode,
            negative,
            mantissa as nat,
            scale as nat,
            target as nat,
        ),
{
    if scale <= target {
        return (mantissa, scale);
    }
    let k = scale - target;
    if k >= 20 {
        // The divisor exceeds any 64-bit mantissa: the quotient is zero and
        // the remainder is the whole mantissa, so only the away-from-zero
        // modes can produce a unit in the last kept place.
        proof {
            lemma_pow10_20();
            lemma_pow10_mono(20, k as nat);
            assert(pow10(k as nat) >= pow10(20));
            assert(mantissa < pow10(k as nat));
            vstd::arithmetic::div_mod::lemma_basic_div(mantissa as int, pow10(k as nat) as int);
            vstd::arithmetic::div_mod::lemma_small_mod(mantissa as nat, pow10(k as nat));
        }
        let away = match mode {
            FluentNumberRoundingMode::Expand => mantissa > 0,
            FluentNumberRoundingMode::Ceil => !negative && mantissa > 0,
            FluentNumberRoundingMode::Floor => negative && mantissa > 0,
            _ => false,
        };
        if away {
            (1, target)
        } else {
            (0, target)
        }
    } else {
        let d = pow10_u64(k);
        proof {
            reveal_with_fuel(pow10, 2);
            lemma_pow10_mono(1, k as nat);
            assert(d >= 10);
            vstd::arithmetic::div_mod::lemma_div_is_ordered_by_denominator(
                mantissa as int,
                10,
                d as int,
            );
            assert(mantissa as int / d as int <= mantissa as int / 10);
        }
        let q = mantissa / d;
        let r = mantissa % d;
        let away = match mode {
            FluentNumberRoundingMode::Expand => r > 0,
            FluentNumberRoundingMode::Trunc => false,
            FluentNumberRoundingMode::Ceil => !negative && r > 0,
            FluentNumberRoundingMode::Floor => negative && r > 0,
            FluentNumberRoundingMode::HalfExpand => (r as u128) * 2 >= d as u128,
            FluentNumberRoundingMode::HalfTrunc => (r as u128) * 2 > d as u128,
            FluentNumberRoundingMode::HalfCeil => if !negative {
                (r as u128) * 2 >= d as u128
            } else {
                (r as u128) * 2 > d as u128
            },
            FluentNumberRoundingMode::HalfFloor => if negative {
                (r as u128) * 2 >= d as u128
            } else {
                (r as u128) * 2 > d as u128
            },
            FluentNumberRoundingMode::HalfEven => (r as u128) * 2 > d as u128 || ((r as u128) * 2
                == d as u128 && q % 2 == 1),
        };
        if away {
            (q + 1, target)
        } else {
            (q, target)
        }
    }
}

/// Executable counterpart of [`spec_trim`].
pub fn trim_zeros(mantissa: u64, scale: u32) -> (r: (u64, u32))
    ensures
        (r.0 as nat, r.1 as nat) == spec_trim(mantissa as nat, scale as nat),
        r.1 <= scale,
{
    let mut m = mantissa;
    let mut s = scale;
    while s > 0 && m % 10 == 0
        invariant
            s <= scale,
            spec_trim(m as nat, s as nat) == spec_trim(mantissa as nat, scale as nat),
        decreases s,
    {
        m = m / 10;
        s = s - 1;
    }
    (m, s)
}

/// Executable counterpart of [`spec_render`]: appends the rendering to `out`.
#[verifier::rlimit(100)]
#[verifier::spinoff_prover]
pub fn push_rendered(
    negative: bool,
    mantissa: u64,
    scale: u32,
    min_int: usize,
    min_frac: usize,
    out: &mut String,
)
    requires
        scale <= MAX_SCALE,
    ensures
        final(out)@ == old(out)@ + spec_render(
            negative,
            mantissa as nat,
            scale as nat,
            min_int as nat,
            min_frac as nat,
        ),
{
    let ghost ds = digits_of(mantissa as nat);
    let ghost dsp = if ds.len() < scale as nat + 1 {
        zeros((scale as nat + 1 - ds.len()) as nat) + ds
    } else {
        ds
    };
    let ghost gip = dsp.take(dsp.len() - scale as nat);
    let ghost gfp = dsp.skip(dsp.len() - scale as nat);
    let ghost gip2 = if gip.len() < min_int as nat {
        zeros((min_int as nat - gip.len()) as nat) + gip
    } else {
        gip
    };
    let ghost gfp2 = if gfp.len() < min_frac as nat {
        gfp + zeros((min_frac as nat - gfp.len()) as nat)
    } else {
        gfp
    };
    let mut digits = String::new();
    push_digits(mantissa, &mut digits);
    proof {
        lemma_digits_of_len(mantissa as nat);
    }
    let dlen = digits.as_str().unicode_len();
    let scale_us = scale as usize;

    if negative {
        out.append("-");
        proof {
            reveal_strlit("-");
            assert("-"@ =~= seq!['-']);
        }
    }
    let ghost o1 = out@;
    proof {
        assert(o1 =~= old(out)@ + (if negative {
            seq!['-']
        } else {
            Seq::<char>::empty()
        }));
    }
    // Integer part, left-padded to min_int digits.
    let int_len: usize = if dlen > scale_us {
        dlen - scale_us
    } else {
        1
    };
    proof {
        if dlen > scale_us {
            assert(gip =~= ds.take(ds.len() - scale as nat));
        } else {
            assert(dsp[0] == '0');
            assert(gip =~= seq!['0']);
        }
        assert(gip.len() == int_len as nat);
    }
    if min_int > int_len {
        push_zeros(min_int - int_len, out);
    }
    if dlen > scale_us {
        let ip = digits.as_str().substring_char(0, dlen - scale_us);
        out.append(ip);
    } else {
        out.append(digit_str(0));
    }
    let ghost o2 = out@;
    proof {
        assert(o2 =~= o1 + gip2);
    }
    // Fraction part, right-padded to min_frac digits.
    if scale_us > 0 || min_frac > 0 {
        out.append(".");
        proof {
            reveal_strlit(".");
            assert("."@ =~= seq!['.']);
        }
        if dlen > scale_us {
            let fp = digits.as_str().substring_char(dlen - scale_us, dlen);
            out.append(fp);
        } else {
            push_zeros(scale_us - dlen, out);
            out.append(digits.as_str());
        }
        proof {
            if dlen > scale_us {
                assert(gfp =~= ds.skip(ds.len() - scale as nat));
            } else {
                assert(gfp =~= zeros((scale as nat - ds.len()) as nat) + ds);
            }
        }
        if min_frac > scale_us {
            push_zeros(min_frac - scale_us, out);
        }
        proof {
            assert(gfp.len() == scale as nat);
            assert(out@ =~= o2 + seq!['.'] + gfp2);
            assert(gfp2.len() > 0 ==> out@ =~= o2 + (seq!['.'] + gfp2));
        }
    }
    proof {
        assert(gfp2.len() == 0 <==> (scale == 0 && min_frac == 0));
        assert(final(out)@ =~= old(out)@ + spec_render(
            negative,
            mantissa as nat,
            scale as nat,
            min_int as nat,
            min_frac as nat,
        ));
    }
}

} // verus!

verus! {

/// An optional digit bound, or its documented default.
pub open spec fn opt_or(o: Option<usize>, d: nat) -> nat {
    match o {
        Some(v) => v as nat,
        None => d,
    }
}

/// The digits a standard-notation number renders to before locale-aware
/// formatting: round at the maximum-fraction boundary (default
/// `max(minimum, 3)`), drop trailing fraction zeros, then pad to the minimum
/// integer (default 1) and fraction (default 0) digit counts.
pub open spec fn spec_shaped_standard(n: FluentNumber) -> Seq<char> {
    let min_int = opt_or(n.options.minimum_integer_digits, 1);
    let min_frac = opt_or(n.options.minimum_fraction_digits, 0);
    let max_frac = opt_or(
        n.options.maximum_fraction_digits,
        if min_frac < 3 {
            3
        } else {
            min_frac
        },
    );
    let r1 = spec_round_at(
        n.options.rounding_mode,
        n.negative,
        n.mantissa as nat,
        n.scale as nat,
        max_frac,
    );
    let r2 = spec_trim(r1.0, r1.1);
    spec_render(n.negative, r2.0, r2.1, min_int, min_frac)
}

/// Truncating division (rounding the quotient toward zero), for a positive
/// divisor.
pub open spec fn spec_trunc_div(a: int, b: int) -> int {
    if a >= 0 {
        a / b
    } else {
        -((-a) / b)
    }
}

/// The parts a scientific- or engineering-notation number renders to before
/// locale-aware formatting: the mantissa is scaled so that its magnitude is a
/// multiple of `multiple` (1 for scientific, 3 for engineering), rounded and
/// trimmed like the standard shape but with fraction default 3, and paired
/// with the exponent's sign and digits, the latter padded to the minimum
/// integer digit count (default 2).
pub open spec fn spec_shaped_scientific(n: FluentNumber, multiple: int) -> (Seq<char>, bool, Seq<
    char,
>) {
    let t = spec_trim(n.mantissa as nat, n.scale as nat);
    let dlen = digits_of(t.0).len() as int;
    let mag = dlen - 1 - t.1 as int;
    let e = spec_trunc_div(mag, multiple) * multiple;
    let s2 = (t.1 as int + e) as nat;
    let min_int = opt_or(n.options.minimum_integer_digits, 2);
    let min_frac = opt_or(n.options.minimum_fraction_digits, 3);
    let max_frac = opt_or(
        n.options.maximum_fraction_digits,
        if min_frac < 3 {
            3
        } else {
            min_frac
        },
    );
    let r1 = spec_round_at(n.options.rounding_mode, n.negative, t.0, s2, max_frac);
    let r2 = spec_trim(r1.0, r1.1);
    let mant = spec_render(n.negative, r2.0, r2.1, 1, min_frac);
    let exp = spec_render(
        false,
        (if e >= 0 {
            e
        } else {
            -e
        }) as nat,
        0,
        min_int,
        0,
    );
    (mant, e < 0, exp)
}

proof fn lemma_spec_trim_le(mantissa: nat, scale: nat)
    ensures
        spec_trim(mantissa, scale).1 <= scale,
        spec_trim(mantissa, scale).0 <= mantissa,
    decreases scale,
{
    if scale > 0 && mantissa % 10 == 0 {
        lemma_spec_trim_le(mantissa / 10, (scale - 1) as nat);
    }
}

/// The number of decimal digits of `n`.
pub fn digit_count(n: u64) -> (c: u64)
    ensures
        c == digits_of(n as nat).len(),
        1 <= c <= 20,
    decreases n,
{
    proof {
        lemma_digits_of_len(n as nat);
        lemma_digits_len_le_20(n as nat);
    }
    if n < 10 {
        1
    } else {
        1 + digit_count(n / 10)
    }
}

proof fn lemma_digits_len_le_20(n: nat)
    requires
        n <= u64::MAX,
    ensures
        digits_of(n).len() <= 20,
{
    lemma_pow10_20();
    lemma_digits_len_pow(n, 20);
}

proof fn lemma_digits_len_pow(n: nat, k: nat)
    requires
        k >= 1,
        n < pow10(k),
    ensures
        digits_of(n).len() <= k,
    decreases n,
{
    if n >= 10 {
        assert(pow10(k) == 10 * pow10((k - 1) as nat));
        lemma_digits_len_pow(n / 10, (k - 1) as nat);
    }
}

impl FluentNumber {
    /// The standard-notation digit shape of this number, ready for the
    /// locale-aware decimal formatter.
    pub fn to_shaped_standard(&self) -> (r: String)
        requires
            self.wf(),
        ensures
            r@ == spec_shaped_standard(*self),
    {
        let min_int: usize = match self.options.minimum_integer_digits {
            Some(v) => v,
            None => 1,
        };
        let min_frac: usize = match self.options.minimum_fraction_digits {
            Some(v) => v,
            None => 0,
        };
        let max_frac: usize = match self.options.maximum_fraction_digits {
            Some(v) => v,
            None => if min_frac < 3 {
                3
            } else {
                min_frac
            },
        };
        let target: u32 = if max_frac >= self.scale as usize {
            self.scale
        } else {
            max_frac as u32
        };
        proof {
            assert(spec_round_at(
                self.options.rounding_mode,
                self.negative,
                self.mantissa as nat,
                self.scale as nat,
                target as nat,
            ) == spec_round_at(
                self.options.rounding_mode,
                self.negative,
                self.mantissa as nat,
                self.scale as nat,
                opt_or(
                    self.options.maximum_fraction_digits,
                    if opt_or(self.options.minimum_fraction_digits, 0) < 3 {
                        3
                    } else {
                        opt_or(self.options.minimum_fraction_digits, 0)
                    },
                ),
            ));
        }
        let r1 = round_at(self.options.rounding_mode, self.negative, self.mantissa, self.scale,
            target);
        let r2 = trim_zeros(r1.0, r1.1);
        proof {
            lemma_spec_trim_le(r1.0 as nat, r1.1 as nat);
        }
        let mut out = String::new();
        push_rendered(self.negative, r2.0, r2.1, min_int, min_frac, &mut out);
        out
    }

    /// The scientific- or engineering-notation digit shape of this number:
    /// the mantissa digits, the exponent's sign, and the exponent digits,
    /// each ready for the locale-aware decimal formatter.
    #[verifier::rlimit(100)]
    pub fn to_shaped_scientific(&self, multiple: u32) -> (r: (String, bool, String))
        requires
            self.wf(),
            multiple == 1 || multiple == 3,
        ensures
            (r.0@, r.1, r.2@) == spec_shaped_scientific(*self, multiple as int),
    {
        let t = trim_zeros(self.mantissa, self.scale);
        let dlen = digit_count(t.0);
        proof {
            lemma_spec_trim_le(self.mantissa as nat, self.scale as nat);
        }
        // The magnitude of the leading digit, as sign and absolute value.
        let (mag_neg, mag_abs): (bool, u64) = if dlen >= 1 + t.1 as u64 {
            (false, dlen - 1 - t.1 as u64)
        } else {
            (true, 1 + t.1 as u64 - dlen)
        };
        proof {
            let md = mag_abs as int;
            let mu = multiple as int;
            vstd::arithmetic::div_mod::lemma_fundamental_div_mod(md, mu);
            vstd::arithmetic::div_mod::lemma_mod_bound(md, mu);
            let q = md / mu;
            let rr = md % mu;
            assert(q * mu <= md) by (nonlinear_arith)
                requires
                    md == mu * q + rr,
                    rr >= 0,
            ;
        }
        let e_abs: u64 = (mag_abs / multiple as u64) * multiple as u64;
        let e_neg: bool = mag_neg && e_abs > 0;
        proof {
            let mag: int = dlen as int - 1 - t.1 as int;
            let e = spec_trunc_div(mag, multiple as int) * multiple as int;
            vstd::arithmetic::div_mod::lemma_fundamental_div_mod(mag_abs as int, multiple as int);
            assert(e_abs <= mag_abs);
            if mag_neg {
                assert(mag == -(mag_abs as int));
                assert((-(mag_abs as int / multiple as int)) * (multiple as int) == -((mag_abs
                    as int / multiple as int) * (multiple as int))) by (nonlinear_arith);
                assert(e == -((mag_abs as int / multiple as int) * multiple as int));
            }
            assert(e == if e_neg {
                -(e_abs as int)
            } else {
                e_abs as int
            });
        }
        let s2: u32 = if e_neg {
            t.1 - e_abs as u32
        } else {
            proof {
                assert(t.1 as int + e_abs as int <= MAX_SCALE as int + 19);
            }
            t.1 + e_abs as u32
        };
        let min_int: usize = match self.options.minimum_integer_digits {
            Some(v) => v,
            None => 2,
        };
        let min_frac: usize = match self.options.minimum_fraction_digits {
            Some(v) => v,
            None => 3,
        };
        let max_frac: usize = match self.options.maximum_fraction_digits {
            Some(v) => v,
            None => if min_frac < 3 {
                3
            } else {
                min_frac
            },
        };
        let target: u32 = if max_frac >= s2 as usize {
            s2
        } else {
            max_frac as u32
        };
        let r1 = round_at(self.options.rounding_mode, self.negative, t.0, s2, target);
        let r2 = trim_zeros(r1.0, r1.1);
        proof {
            lemma_spec_trim_le(r1.0 as nat, r1.1 as nat);
        }
        let mut mant = String::new();
        push_rendered(self.negative, r2.0, r2.1, 1, min_frac, &mut mant);
        let mut exp = String::new();
        push_rendered(false, e_abs, 0, min_int, 0, &mut exp);
        (mant, e_neg, exp)
    }
}

} // verus!

verus! {

pub open spec fn is_ascii_digit(c: char) -> bool {
    '0' <= c && c <= '9'
}

pub open spec fn digit_val(c: char) -> nat {
    (c as int - '0' as int) as nat
}

/// A single left-to-right scan of a literal's body from position `i`: digits
/// accumulate into the mantissa `m`, at most one decimal point is remembered
/// at its index, and `nd` counts the digits seen. Any other character, a
/// second point, or a mantissa beyond the 64-bit range scans to nothing.
pub open spec fn scan_decimal(s: Seq<char>, i: int, m: nat, dot: Option<int>, nd: nat) -> Option<
    (nat, Option<int>, nat),
>
    decreases s.len() - i,
{
    if i < 0 || i >= s.len() {
        Some((m, dot, nd))
    } else if s[i] == '.' {
        if dot is Some {
            None
        } else {
            scan_decimal(s, i + 1, m, Some(i), nd)
        }
    } else if is_ascii_digit(s[i]) {
        if m * 10 + digit_val(s[i]) <= u64::MAX as nat {
            scan_decimal(s, i + 1, m * 10 + digit_val(s[i]), dot, nd + 1)
        } else {
            None
        }
    } else {
        None
    }
}

/// Which strings are numeric literals, and the decimal they denote: an
/// optional sign, then digits with at most one point and at least one digit,
/// within the 64-bit mantissa range and the scale bound. The result carries
/// (negative, mantissa, scale, had a point).
pub open spec fn spec_parse_decimal(s: Seq<char>) -> Option<(bool, nat, nat, bool)> {
    let signed = s.len() > 0 && (s[0] == '-' || s[0] == '+');
    let neg = s.len() > 0 && s[0] == '-';
    let base: int = if signed {
        1
    } else {
        0
    };
    match scan_decimal(s, base, 0, None, 0) {
        None => None,
        Some((m, dot, nd)) => if nd == 0 {
            None
        } else {
            match dot {
                None => Some((neg, m, 0 as nat, false)),
                Some(d) => {
                    let sc = s.len() - 1 - d;
                    if sc <= MAX_SCALE as int {
                        Some((neg, m, sc as nat, true))
                    } else {
                        None
                    }
                },
            }
        },
    }
}

/// The default options a parsed literal carries: the explicit fraction-digit
/// count is recorded as the minimum when the literal had a decimal point.
pub open spec fn literal_options(has_dot: bool, scale: nat) -> FluentNumberOptions {
    FluentNumberOptions {
        minimum_fraction_digits: if has_dot {
            Some(scale as usize)
        } else {
            None
        },
        ..FluentNumberOptions::spec_default()
    }
}

impl FluentNumber {
    /// Parses a plain decimal literal (optional sign, digits, at most one
    /// point). This is a deliberate narrowing to the decimal value model:
    /// exponent forms and non-finite names are not literals, and values
    /// beyond 64-bit decimal precision or the scale bound are rejected
    /// rather than approximated.
    pub fn try_from_str(s: &str) -> (r: Option<FluentNumber>)
        ensures
            match spec_parse_decimal(s@) {
                Some(p) => r matches Some(n) && n.negative == p.0 && n.mantissa == p.1 && n.scale
                    == p.2 && n.options == literal_options(p.3, p.2) && n.wf(),
                None => r is None,
            },
    {
        let n = s.unicode_len();
        let (neg, base): (bool, usize) = if n > 0 && (s.get_char(0) == '-' || s.get_char(0)
            == '+') {
            (s.get_char(0) == '-', 1)
        } else {
            (false, 0)
        };
        let mut i: usize = base;
        let mut m: u64 = 0;
        let mut dot: Option<usize> = None;
        let mut nd: usize = 0;
        while i < n
            invariant
                base <= i <= n,
                n == s@.len(),
                nd <= i,
                (base == 1) == (n > 0 && (s@[0] == '-' || s@[0] == '+')),
                base <= 1,
                neg == (n > 0 && s@[0] == '-'),
                match dot {
                    None => scan_decimal(s@, base as int, 0, None, 0) == scan_decimal(
                        s@,
                        i as int,
                        m as nat,
                        None,
                        nd as nat,
                    ),
                    Some(d) => d < i && scan_decimal(s@, base as int, 0, None, 0) == scan_decimal(
                        s@,
                        i as int,
                        m as nat,
                        Some(d as int),
                        nd as nat,
                    ),
                },
            decreases n - i,
        {
            let c = s.get_char(i);
            if c == '.' {
                if let Some(dd) = dot {
                    proof {
                        assert(scan_decimal(s@, i as int, m as nat, Some(dd as int), nd as nat)
                            is None);
                    }
                    return None;
                }
                dot = Some(i);
            } else {
                let u = c as u32;
                if !(48 <= u && u <= 57) {
                    proof {
                        assert(!is_ascii_digit(s@[i as int]) && s@[i as int] != '.');
                        match dot {
                            None => {
                                assert(scan_decimal(s@, i as int, m as nat, None, nd as nat)
                                    is None);
                            },
                            Some(dd) => {
                                assert(scan_decimal(
                                    s@,
                                    i as int,
                                    m as nat,
                                    Some(dd as int),
                                    nd as nat,
                                ) is None);
                            },
                        }
                    }
                    return None;
                }
                let d = (u - 48) as u64;
                if m > (u64::MAX - d) / 10 {
                    proof {
                        assert(is_ascii_digit(s@[i as int]));
                        assert(digit_val(s@[i as int]) == d as nat);
                        assert((m as nat) * 10 + digit_val(s@[i as int]) > u64::MAX as nat);
                        match dot {
                            None => {
                                assert(scan_decimal(s@, i as int, m as nat, None, nd as nat)
                                    is None);
                            },
                            Some(dd) => {
                                assert(scan_decimal(
                                    s@,
                                    i as int,
                                    m as nat,
                                    Some(dd as int),
                                    nd as nat,
                                ) is None);
                            },
                        }
                    }
                    return None;
                }
                m = m * 10 + d;
                nd = nd + 1;
            }
            i = i + 1;
        }
        if nd == 0 {
            return None;
        }
        match dot {
            None => Some(
                FluentNumber {
                    negative: neg,
                    mantissa: m,
                    scale: 0,
                    options: FluentNumberOptions {
                        minimum_fraction_digits: None,
                        ..Default::default()
                    },
                },
            ),
            Some(d0) => {
                let frac_len = n - d0 - 1;
                if frac_len > MAX_SCALE as usize {
                    return None;
                }
                Some(
                    FluentNumber {
                        negative: neg,
                        mantissa: m,
                        scale: frac_len as u32,
                        options: FluentNumberOptions {
                            minimum_fraction_digits: Some(frac_len),
                            ..Default::default()
                        },
                    },
                )
            },
        }
    }
}

} // verus!

verus! {

/// The whole-number part of a numeric value, as a machine size, saturating at
/// the bounds: negative values give zero.
pub open spec fn spec_number_to_usize(n: FluentNumber) -> usize {
    if n.negative {
        0
    } else {
        let v = n.mantissa as nat / pow10(n.scale as nat);
        if v > usize::MAX as nat {
            usize::MAX
        } else {
            v as usize
        }
    }
}

impl FluentNumber {
    /// Executable counterpart of [`spec_number_to_usize`].
    pub fn to_usize(&self) -> (r: usize)
        ensures
            r == spec_number_to_usize(*self),
    {
        if self.negative {
            return 0;
        }
        if self.scale >= 20 {
            proof {
                lemma_pow10_20();
                lemma_pow10_mono(20, self.scale as nat);
                vstd::arithmetic::div_mod::lemma_basic_div(
                    self.mantissa as int,
                    pow10(self.scale as nat) as int,
                );
            }
            return 0;
        }
        let d = pow10_u64(self.scale);
        proof {
            crate::strutil::lemma_pow10_pos(self.scale as nat);
        }
        let v = self.mantissa / d;
        if v > usize::MAX as u64 {
            usize::MAX
        } else {
            v as usize
        }
    }
}

/// One named option applied to a set of number options: the enumerated string
/// options parse by name, the digit bounds take the whole-number part of a
/// numeric value, and unrecognized keys or value kinds are ignored by design.
pub open spec fn spec_apply_number_option(
    o: FluentNumberOptions,
    key: Seq<char>,
    v: FluentValue,
) -> FluentNumberOptions {
    match v {
        FluentValue::String(n) => {
            if key == "style"@ {
                FluentNumberOptions { style: FluentNumberStyle::spec_from_name(n@), ..o }
            } else if key == "notation"@ {
                FluentNumberOptions { notation: FluentNumberNotation::spec_from_name(n@), ..o }
            } else if key == "currency"@ {
                FluentNumberOptions { currency: Some(n), ..o }
            } else if key == "currencyDisplay"@ {
                FluentNumberOptions {
                    currency_display: FluentNumberCurrencyDisplayStyle::spec_from_name(n@),
                    ..o
                }
            } else if key == "useGrouping"@ {
                FluentNumberOptions { use_grouping: FluentNumberGrouping::spec_from_name(n@), ..o }
            } else if key == "roundingMode"@ {
                FluentNumberOptions {
                    rounding_mode: FluentNumberRoundingMode::spec_from_name(n@),
                    ..o
                }
            } else {
                o
            }
        },
        FluentValue::Number(n) => {
            if key == "minimumIntegerDigits"@ {
                FluentNumberOptions {
                    minimum_integer_digits: Some(spec_number_to_usize(n)),
                    ..o
                }
            } else if key == "minimumFractionDigits"@ {
                FluentNumberOptions {
                    minimum_fraction_digits: Some(spec_number_to_usize(n)),
                    ..o
                }
            } else if key == "maximumFractionDigits"@ {
                FluentNumberOptions {
                    maximum_fraction_digits: Some(spec_number_to_usize(n)),
                    ..o
                }
            } else if key == "minimumSignificantDigits"@ {
                FluentNumberOptions {
                    minimum_significant_digits: Some(spec_number_to_usize(n)),
                    ..o
                }
            } else if key == "maximumSignificantDigits"@ {
                FluentNumberOptions {
                    maximum_significant_digits: Some(spec_number_to_usize(n)),
                    ..o
                }
            } else {
                o
            }
        },
        _ => o,
    }
}

/// The named options applied in order, first to last.
pub open spec fn spec_merge_number_options(
    o: FluentNumberOptions,
    pairs: Seq<(String, FluentValue)>,
) -> FluentNumberOptions
    decreases pairs.len(),
{
    if pairs.len() == 0 {
        o
    } else {
        spec_merge_number_options(
            spec_apply_number_option(o, pairs[0].0@, pairs[0].1),
            pairs.skip(1),
        )
    }
}

impl FluentNumberOptions {
    /// Overrides these options with the recognized entries of a named-options
    /// map, in insertion order; unrecognized keys are ignored by design.
    pub fn merge(&mut self, opts: &crate::args::FluentArgs)
        ensures
            *final(self) == spec_merge_number_options(*old(self), opts@),
    {
        let n = opts.len();
        let mut i: usize = 0;
        proof {
            assert(opts@.skip(0) =~= opts@);
        }
        while i < n
            invariant
                i <= n,
                n == opts@.len(),
                spec_merge_number_options(*old(self), opts@) == spec_merge_number_options(
                    *self,
                    opts@.skip(i as int),
                ),
            decreases n - i,
        {
            proof {
                assert(opts@.skip(i as int)[0] == opts@[i as int]);
                assert(opts@.skip(i as int).skip(1) =~= opts@.skip(i as int + 1));
            }
            let key = opts.key_at(i);
            let value = opts.value_at(i);
            match value {
                FluentValue::String(s) => {
                    if str_eq(key, "style") {
                        self.style = FluentNumberStyle::from_name(s.as_str());
                    } else if str_eq(key, "notation") {
                        self.notation = FluentNumberNotation::from_name(s.as_str());
                    } else if str_eq(key, "currency") {
                        self.currency = Some(s.clone());
                    } else if str_eq(key, "currencyDisplay") {
                        self.currency_display = FluentNumberCurrencyDisplayStyle::from_name(
                            s.as_str(),
                        );
                    } else if str_eq(key, "useGrouping") {
                        self.use_grouping = FluentNumberGrouping::from_name(s.as_str());
                    } else if str_eq(key, "roundingMode") {
                        self.rounding_mode = FluentNumberRoundingMode::from_name(s.as_str());
                    }
                },
                FluentValue::Number(num) => {
                    if str_eq(key, "minimumIntegerDigits") {
                        self.minimum_integer_digits = Some(num.to_usize());
                    } else if str_eq(key, "minimumFractionDigits") {
                        self.minimum_fraction_digits = Some(num.to_usize());
                    } else if str_eq(key, "maximumFractionDigits") {
                        self.maximum_fraction_digits = Some(num.to_usize());
                    } else if str_eq(key, "minimumSignificantDigits") {
                        self.minimum_significant_digits = Some(num.to_usize());
                    } else if str_eq(key, "maximumSignificantDigits") {
                        self.maximum_significant_digits = Some(num.to_usize());
                    }
                },
                _ => {},
            }
            i = i + 1;
        }
        proof {
            assert(opts@.skip(n as int) =~= Seq::<(String, FluentValue)>::empty());
        }
    }
}

} // verus!
