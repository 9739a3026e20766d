use fluent_bundle::intl::tz_components;
use fluent_bundle::DateTimeParts;
use fluent_bundle::FluentArgs;
use fluent_bundle::FluentDateStyle;
use fluent_bundle::FluentDateTime;
use fluent_bundle::FluentDateTimeOptions;
use fluent_bundle::FluentTimeStyle;
use fluent_bundle::FluentTimezoneStyle;
use fluent_bundle::FluentValue;
use fluent_bundle::IntlLangMemoizer;
use fluent_bundle::IsoFormat;
use fluent_bundle::IsoMinutes;
use fluent_bundle::IsoSeconds;

fn noon() -> DateTimeParts {
    DateTimeParts {
        year: 2024,
        month: 1,
        day: 15,
        hour: 12,
        minute: 30,
        second: 0,
        offset_seconds: 0,
    }
}

#[test]
fn hidden_styles_render_empty() {
    let mut intls = IntlLangMemoizer::new("en".to_string());
    let opts = FluentDateTimeOptions {
        date_style: FluentDateStyle::Hidden,
        time_style: FluentTimeStyle::Hidden,
        timezone_style: FluentTimezoneStyle::Hidden,
    };
    let dt = FluentDateTime::new(noon(), opts);
    assert_eq!(dt.as_string(&mut intls), "");
}

#[test]
fn default_styles_render_date_and_time() {
    let mut intls = IntlLangMemoizer::new("en".to_string());
    let dt = FluentDateTime::new(noon(), FluentDateTimeOptions::default());
    let out = dt.as_string(&mut intls);
    assert!(out.contains("2024"));
    assert!(out.contains("15"));
}

#[test]
fn merge_applies_named_datetime_options() {
    let mut opts = FluentDateTimeOptions::default();
    let mut named = FluentArgs::new();
    named.set("dateStyle", FluentValue::text("full"));
    named.set("timeStyle", FluentValue::text("hidden"));
    opts.merge(&named);
    assert_eq!(opts.date_style, FluentDateStyle::Full);
    assert_eq!(opts.time_style, FluentTimeStyle::Hidden);
}

#[test]
fn zone_style_code_round_trips_through_components() {
    let gmt = FluentTimezoneStyle::LocalizedGmt;
    assert_eq!(tz_components(gmt.code().unwrap()), (true, 0, 0, 0));
    let iso = FluentTimezoneStyle::Iso8601(
        IsoFormat::UtcExtended,
        IsoMinutes::Optional,
        IsoSeconds::Never,
    );
    assert_eq!(tz_components(iso.code().unwrap()), (false, 3, 1, 1));
    let basic = FluentTimezoneStyle::Iso8601(
        IsoFormat::Basic,
        IsoMinutes::Required,
        IsoSeconds::Optional,
    );
    assert_eq!(tz_components(basic.code().unwrap()), (false, 0, 0, 0));
}
