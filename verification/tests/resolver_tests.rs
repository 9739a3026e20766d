use fluent_bundle::Expression;
use fluent_bundle::FluentArgs;
use fluent_bundle::FluentBundle;
use fluent_bundle::FluentError;
use fluent_bundle::FluentMessage;
use fluent_bundle::FluentResource;
use fluent_bundle::FluentValue;
use fluent_bundle::LocaleId;
use fluent_bundle::Pattern;
use fluent_bundle::PatternElement;
use fluent_bundle::ResourceEntry;
use fluent_bundle::Variant;
use fluent_bundle::VariantKey;

fn en_bundle() -> FluentBundle {
    FluentBundle::new(vec![LocaleId::new("en".to_string(), None, None)])
}

fn text(s: &str) -> PatternElement {
    PatternElement::Text(s.to_string())
}

fn var(name: &str) -> PatternElement {
    PatternElement::Placeable(Expression::VariableReference(name.to_string()))
}

#[test]
fn literal_pattern_verbatim_no_diagnostics() {
    let mut bundle = en_bundle();
    let pattern = Pattern { elements: vec![text("Hello World")] };
    let mut errors = vec![];
    let out = bundle.format_pattern(&pattern, None, &mut errors);
    assert_eq!(out, "Hello World");
    assert!(errors.is_empty());
}

#[test]
fn unknown_variable_fallback_token() {
    let mut bundle = en_bundle();
    let pattern = Pattern { elements: vec![text("Hi "), var("name")] };
    let mut errors = vec![];
    let out = bundle.format_pattern(&pattern, None, &mut errors);
    assert_eq!(out, "Hi {$name}");
    assert_eq!(errors, vec![FluentError::UnknownVariable]);
}

#[test]
fn hello_world_two_segments_no_isolation() {
    let mut bundle = en_bundle();
    let pattern = Pattern { elements: vec![text("Hello "), var("name")] };
    let mut args = FluentArgs::new();
    args.set("name", FluentValue::text("John"));
    let mut errors = vec![];
    let out = bundle.format_pattern(&pattern, Some(&args), &mut errors);
    assert_eq!(out, "Hello John");
    assert!(errors.is_empty());
}

#[test]
fn three_segments_isolate_substitution() {
    let mut bundle = en_bundle();
    let pattern = Pattern { elements: vec![text("a "), var("x"), text(" b")] };
    let mut args = FluentArgs::new();
    args.set("x", FluentValue::text("X"));
    let mut errors = vec![];
    let out = bundle.format_pattern(&pattern, Some(&args), &mut errors);
    assert_eq!(out, "a \u{2068}X\u{2069} b");
    bundle.set_use_isolating(false);
    let out2 = bundle.format_pattern(&pattern, Some(&args), &mut errors);
    assert_eq!(out2, "a X b");
}

#[test]
fn self_reference_terminates_with_cyclic_diagnostic() {
    let mut bundle = en_bundle();
    let msg = FluentMessage {
        id: "loop-message".to_string(),
        value: Some(Pattern {
            elements: vec![PatternElement::Placeable(Expression::MessageReference(
                "loop-message".to_string(),
                None,
            ))],
        }),
        attributes: vec![],
    };
    let res = FluentResource { entries: vec![ResourceEntry::Message(msg)] };
    bundle.add_resource(res).expect("no duplicates");
    {
        let looked = bundle.get_message("loop-message").expect("message exists");
        assert!(looked.value.is_some());
    }
    let mut errors = vec![];
    let out = bundle.format_message_value("loop-message", None, &mut errors).expect("present");
    assert_eq!(out, "{loop-message}");
    assert_eq!(errors, vec![FluentError::CyclicReference]);
}

#[test]
fn select_number_plural_categories() {
    let mut bundle = en_bundle();
    let variants = vec![
        Variant {
            key: VariantKey::Identifier("one".to_string()),
            value: Pattern { elements: vec![text("one email")] },
            default: false,
        },
        Variant {
            key: VariantKey::Identifier("other".to_string()),
            value: Pattern { elements: vec![text("many emails")] },
            default: true,
        },
    ];
    let pattern = Pattern {
        elements: vec![PatternElement::Placeable(Expression::Select(
            Box::new(Expression::VariableReference("emailCount".to_string())),
            variants,
        ))],
    };
    let mut args = FluentArgs::new();
    args.set("emailCount", FluentValue::try_number("1"));
    let mut errors = vec![];
    let out = bundle.format_pattern(&pattern, Some(&args), &mut errors);
    assert_eq!(out, "one email");
    let mut args5 = FluentArgs::new();
    args5.set("emailCount", FluentValue::try_number("5"));
    let out5 = bundle.format_pattern(&pattern, Some(&args5), &mut errors);
    assert_eq!(out5, "many emails");
    assert!(errors.is_empty());
}

#[test]
fn select_exact_number_key_beats_category() {
    let mut bundle = en_bundle();
    let variants = vec![
        Variant {
            key: VariantKey::NumberLiteral(num_key("1.0")),
            value: Pattern { elements: vec![text("exactly one")] },
            default: false,
        },
        Variant {
            key: VariantKey::Identifier("other".to_string()),
            value: Pattern { elements: vec![text("other")] },
            default: true,
        },
    ];
    let pattern = Pattern {
        elements: vec![PatternElement::Placeable(Expression::Select(
            Box::new(Expression::VariableReference("n".to_string())),
            variants,
        ))],
    };
    let mut args = FluentArgs::new();
    args.set("n", FluentValue::try_number("1"));
    let mut errors = vec![];
    let out = bundle.format_pattern(&pattern, Some(&args), &mut errors);
    assert_eq!(out, "exactly one");
}

fn num_key(s: &str) -> fluent_bundle::FluentNumber {
    fluent_bundle::FluentNumber::try_from_str(s).expect("number literal")
}

#[test]
fn format_pattern_is_idempotent() {
    let mut bundle = en_bundle();
    let pattern = Pattern { elements: vec![text("Hi "), var("name")] };
    let mut errors1 = vec![];
    let out1 = bundle.format_pattern(&pattern, None, &mut errors1);
    let mut errors2 = vec![];
    let out2 = bundle.format_pattern(&pattern, None, &mut errors2);
    assert_eq!(out1, out2);
    assert_eq!(errors1, errors2);
}

#[test]
fn duplicate_entries_and_functions_report_conflicts() {
    let mut bundle = en_bundle();
    let m = |id: &str, body: &str| FluentMessage {
        id: id.to_string(),
        value: Some(Pattern { elements: vec![text(body)] }),
        attributes: vec![],
    };
    let res = FluentResource {
        entries: vec![
            ResourceEntry::Message(m("hello", "old")),
            ResourceEntry::Message(m("hello", "new")),
        ],
    };
    let errs = bundle.add_resource(res).expect_err("duplicate id reported");
    assert_eq!(errs, vec![FluentError::DuplicateEntryId]);
    // The newest entry overrides.
    let mut errors = vec![];
    let out = bundle.format_message_value("hello", None, &mut errors).expect("present");
    assert_eq!(out, "new");

    let r1 = bundle.add_function("NUMBER", fluent_bundle::NativeFunction::Number);
    assert!(r1.is_ok());
    let r2 = bundle.add_function("NUMBER", fluent_bundle::NativeFunction::Number);
    assert_eq!(r2, Err(FluentError::DuplicateFunctionName));
}

#[test]
fn number_function_merges_options() {
    let mut bundle = FluentBundle::new_concurrent(vec![LocaleId::new(
        "en".to_string(),
        None,
        None,
    )]);
    let call = Expression::FunctionReference(
        "NUMBER".to_string(),
        fluent_bundle::CallArguments {
            positional: vec![Expression::VariableReference("n".to_string())],
            named: vec![fluent_bundle::NamedArgument {
                name: "minimumFractionDigits".to_string(),
                value: Expression::NumberLiteral(num_key("2")),
            }],
        },
    );
    let pattern = Pattern { elements: vec![PatternElement::Placeable(call)] };
    let mut args = FluentArgs::new();
    args.set("n", FluentValue::try_number("3"));
    let mut errors = vec![];
    let out = bundle.format_pattern(&pattern, Some(&args), &mut errors);
    assert_eq!(out, "3.00");
    assert!(errors.is_empty());
}
