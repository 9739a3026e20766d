use fluent_bundle::negotiate_languages;
use fluent_bundle::LocaleId;
use fluent_bundle::MockLikelySubtags;
use fluent_bundle::NegotiationStrategy;

fn loc(lang: &str, script: Option<&str>, region: Option<&str>) -> LocaleId {
    LocaleId::new(
        lang.to_string(),
        script.map(|s| s.to_string()),
        region.map(|s| s.to_string()),
    )
}

#[test]
fn filtering_keeps_matches_in_requested_order() {
    let requested = vec![loc("en", None, Some("US")), loc("pl", None, None)];
    let available = vec![
        loc("en", None, Some("US")),
        loc("pl", None, None),
        loc("fr", None, None),
    ];
    let default = loc("en", None, Some("US"));
    let r = negotiate_languages(&requested, &available, &default, NegotiationStrategy::Filtering);
    assert_eq!(r, vec![loc("en", None, Some("US")), loc("pl", None, None)]);
}

#[test]
fn matching_resolves_via_maximization() {
    let requested = vec![loc("az", None, Some("IR"))];
    let available = vec![loc("az", Some("Arab"), Some("IR"))];
    let default = loc("en", None, None);
    let r = negotiate_languages(&requested, &available, &default, NegotiationStrategy::Matching);
    assert_eq!(r[0], loc("az", Some("Arab"), Some("IR")));
}

#[test]
fn lookup_returns_single_best_or_default() {
    let requested = vec![loc("de", None, Some("AT"))];
    let available = vec![loc("de", None, None), loc("fr", None, None)];
    let default = loc("en", None, None);
    let r = negotiate_languages(&requested, &available, &default, NegotiationStrategy::Lookup);
    assert_eq!(r, vec![loc("de", None, None)]);
    let none_requested = vec![loc("ja", None, None)];
    let available2 = vec![loc("fr", None, None)];
    let r2 = negotiate_languages(
        &none_requested,
        &available2,
        &default,
        NegotiationStrategy::Lookup,
    );
    assert_eq!(r2, vec![loc("en", None, None)]);
}

#[test]
fn maximize_table_and_shared_region_fallback() {
    let mut az_ir = loc("az", None, Some("IR"));
    assert!(az_ir.maximize());
    assert_eq!(az_ir, loc("az", Some("Arab"), Some("IR")));
    let mut en = loc("en", None, None);
    assert!(en.maximize());
    assert_eq!(en, loc("en", Some("Latn"), Some("US")));
    let mut de = loc("de", None, None);
    assert!(de.maximize());
    assert_eq!(de, loc("de", None, Some("DE")));
    let mut ja = loc("ja", None, None);
    assert!(!ja.maximize());
    assert_eq!(ja, loc("ja", None, None));
}
