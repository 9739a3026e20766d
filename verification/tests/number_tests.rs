use fluent_bundle::FluentArgs;
use fluent_bundle::FluentNumber;
use fluent_bundle::FluentNumberOptions;
use fluent_bundle::FluentNumberRoundingMode;
use fluent_bundle::FluentNumberStyle;
use fluent_bundle::FluentValue;
use fluent_bundle::IntlLangMemoizer;

#[test]
fn value_from_copy_ref() {
    let x = 1i16;
    let y = &x;
    let z: FluentValue = y.into();
    assert_eq!(z, FluentValue::try_number("1"));
}

#[test]
fn parse_keeps_explicit_fraction_digits() {
    let n = FluentNumber::try_from_str("1.0").expect("literal");
    assert_eq!(n.mantissa, 10);
    assert_eq!(n.scale, 1);
    assert_eq!(n.options.minimum_fraction_digits, Some(1));
    let m = FluentNumber::try_from_str("1").expect("literal");
    assert_eq!(m.mantissa, 1);
    assert_eq!(m.scale, 0);
    assert_eq!(m.options.minimum_fraction_digits, None);
    assert!(FluentNumber::try_from_str("1e3").is_none());
    assert!(FluentNumber::try_from_str("-2.50").expect("literal").negative);
}

#[test]
fn default_options_render_one_as_one() {
    let mut intls = IntlLangMemoizer::new("en".to_string());
    let n = FluentNumber::new(false, 1, 0, FluentNumberOptions::default());
    assert_eq!(n.as_string(&mut intls), "1");
    // A value written as 1.0 with default options also trims to "1".
    let n10 = FluentNumber::new(false, 10, 1, FluentNumberOptions::default());
    assert_eq!(n10.as_string(&mut intls), "1");
}

#[test]
fn half_even_rounding_at_zero_fraction_digits() {
    let mut intls = IntlLangMemoizer::new("en".to_string());
    let mut opts = FluentNumberOptions::default();
    opts.maximum_fraction_digits = Some(0);
    opts.rounding_mode = FluentNumberRoundingMode::HalfEven;
    let n = FluentNumber::new(false, 15, 1, opts);
    assert_eq!(n.as_string(&mut intls), "2");
    let mut opts2 = FluentNumberOptions::default();
    opts2.maximum_fraction_digits = Some(0);
    opts2.rounding_mode = FluentNumberRoundingMode::HalfEven;
    let n2 = FluentNumber::new(false, 25, 1, opts2);
    assert_eq!(n2.as_string(&mut intls), "2");
}

#[test]
fn scientific_shape_parts() {
    let n = FluentNumber::new(false, 6500, 0, FluentNumberOptions::default());
    let (mant, exp_neg, exp) = n.to_shaped_scientific(1);
    assert_eq!(mant, "6.500");
    assert!(!exp_neg);
    assert_eq!(exp, "03");
    let small = FluentNumber::new(false, 5, 3, FluentNumberOptions::default());
    let (mant2, exp_neg2, exp2) = small.to_shaped_scientific(1);
    assert_eq!(mant2, "5.000");
    assert!(exp_neg2);
    assert_eq!(exp2, "03");
}

#[test]
fn merge_applies_named_number_options() {
    let mut opts = FluentNumberOptions::default();
    let mut named = FluentArgs::new();
    named.set("style", FluentValue::text("percent"));
    named.set("minimumFractionDigits", FluentValue::try_number("2"));
    named.set("roundingMode", FluentValue::text("floor"));
    named.set("unknownOption", FluentValue::text("ignored"));
    opts.merge(&named);
    assert_eq!(opts.style, FluentNumberStyle::Percent);
    assert_eq!(opts.minimum_fraction_digits, Some(2));
    assert_eq!(opts.rounding_mode, FluentNumberRoundingMode::Floor);
}
