use fluent_bundle::FluentBundle;
use fluent_bundle::FluentMessage;
use fluent_bundle::FluentResource;
use fluent_bundle::LocaleId;
use fluent_bundle::Localization;
use fluent_bundle::Pattern;
use fluent_bundle::PatternElement;
use fluent_bundle::ResourceEntry;

fn bundle_with(locale: &str, id: &str, body: &str) -> FluentBundle {
    let mut b = FluentBundle::new(vec![LocaleId::new(locale.to_string(), None, None)]);
    let res = FluentResource {
        entries: vec![ResourceEntry::Message(FluentMessage {
            id: id.to_string(),
            value: Some(Pattern { elements: vec![PatternElement::Text(body.to_string())] }),
            attributes: vec![],
        })],
    };
    b.add_resource(res).expect("no duplicates");
    b
}

#[test]
fn secondary_bundle_supplies_missing_message() {
    let primary = bundle_with("en", "hello-world", "Hello World");
    let secondary = bundle_with("pl", "new-message", "Nowa Wiadomość");
    let mut loc = Localization::new();
    loc.add_bundle(primary);
    loc.add_bundle(secondary);
    let mut errors = vec![];
    let v1 = loc.format_value("hello-world", None, &mut errors);
    assert_eq!(v1.as_deref(), Some("Hello World"));
    let v2 = loc.format_value("new-message", None, &mut errors);
    assert_eq!(v2.as_deref(), Some("Nowa Wiadomość"));
    let v3 = loc.format_value("missing-message", None, &mut errors);
    assert_eq!(v3, None);
    assert!(errors.is_empty());
}
